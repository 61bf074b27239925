//! Output routing: which sink the rendered frame is published to, when a
//! sink's resources are brought up and when they are torn down.
//!
//! The router is a state machine. It never touches a sink itself: each
//! operation returns what the caller has to do next.

use vstd::prelude::*;

verus! {

/// Where the rendered frame goes. Exactly one mode is current.
#[derive(Clone, Copy, PartialEq, Eq, Structural, Debug)]
pub enum OutputMode {
    /// No external sink: the frame stays a local texture.
    Texture,
    /// Shared texture, macOS protocol.
    Syphon,
    /// Shared texture, Windows protocol.
    Spout,
    /// Encoded network stream.
    Stream,
    /// Shared frames over the network.
    Ndi,
}

/// The mode used when the configuration names none.
pub fn default_output_mode() -> (r: OutputMode)
    ensures
        r == OutputMode::Texture,
{
    OutputMode::Texture
}

/// Which sinks the configuration enables and which exist on this build.
#[derive(Clone, Copy, PartialEq, Eq, Structural, Debug)]
pub struct SinkPolicy {
    pub syphon_enabled: bool,
    pub syphon_available: bool,
    pub spout_enabled: bool,
    pub spout_available: bool,
    pub stream_enabled: bool,
    pub stream_available: bool,
    pub ndi_enabled: bool,
    pub ndi_available: bool,
}

impl SinkPolicy {
    /// Whether the sink of `mode` exists on this build.
    pub open spec fn spec_available(&self, mode: OutputMode) -> bool {
        match mode {
            OutputMode::Texture => true,
            OutputMode::Syphon => self.syphon_available,
            OutputMode::Spout => self.spout_available,
            OutputMode::Stream => self.stream_available,
            OutputMode::Ndi => self.ndi_available,
        }
    }

    /// Whether the configuration enables the sink of `mode`.
    pub open spec fn spec_enabled(&self, mode: OutputMode) -> bool {
        match mode {
            OutputMode::Texture => true,
            OutputMode::Syphon => self.syphon_enabled,
            OutputMode::Spout => self.spout_enabled,
            OutputMode::Stream => self.stream_enabled,
            OutputMode::Ndi => self.ndi_enabled,
        }
    }

    /// Whether the sink of `mode` exists on this build.
    #[verifier::when_used_as_spec(spec_available)]
    pub fn available(&self, mode: OutputMode) -> (r: bool)
        ensures
            r == self.spec_available(mode),
    {
        match mode {
            OutputMode::Texture => true,
            OutputMode::Syphon => self.syphon_available,
            OutputMode::Spout => self.spout_available,
            OutputMode::Stream => self.stream_available,
            OutputMode::Ndi => self.ndi_available,
        }
    }

    /// Whether the configuration enables the sink of `mode`.
    #[verifier::when_used_as_spec(spec_enabled)]
    pub fn enabled(&self, mode: OutputMode) -> (r: bool)
        ensures
            r == self.spec_enabled(mode),
    {
        match mode {
            OutputMode::Texture => true,
            OutputMode::Syphon => self.syphon_enabled,
            OutputMode::Spout => self.spout_enabled,
            OutputMode::Stream => self.stream_enabled,
            OutputMode::Ndi => self.ndi_enabled,
        }
    }
}

/// Why a mode behaves like [`OutputMode::Texture`] for now.
#[derive(Clone, Copy, PartialEq, Eq, Structural, Debug)]
pub enum Notice {
    /// The sink does not exist on this build.
    Unavailable(OutputMode),
    /// The configuration does not enable the sink.
    Disabled(OutputMode),
    /// The sink could not be brought up.
    InitFailed(OutputMode),
    /// The sink did not take the frame.
    SendFailed(OutputMode),
}

/// The frame handed to a sink: the texture's handle and its size in pixels.
#[derive(Clone, Copy, PartialEq, Eq, Structural, Debug)]
pub struct Frame {
    pub texture: u32,
    pub width: i32,
    pub height: i32,
}

/// What the caller does next.
#[derive(Clone, Copy, PartialEq, Eq, Structural, Debug)]
pub enum RouterAction {
    /// Nothing.
    Idle,
    /// Log the notice. A notice is given once per activation of a mode.
    Warn(Notice),
    /// Try to bring up the sink and report the outcome.
    Construct(OutputMode),
    /// Hand the frame to the sink.
    Publish(OutputMode, Frame),
}

/// Whether the sink of a mode is brought up by the router's caller on the
/// first frame, as opposed to a sink that manages its own worker.
pub open spec fn spec_constructed_on_demand(mode: OutputMode) -> bool {
    mode == OutputMode::Syphon || mode == OutputMode::Spout
}

/// The state of the router.
#[derive(Clone, Copy, PartialEq, Eq, Structural, Debug)]
pub struct Router {
    /// The current mode.
    pub mode: OutputMode,
    /// Whether the current activation has given its notice.
    pub warned: bool,
    /// The sink whose resources are up, if any.
    pub live: Option<OutputMode>,
    /// What is enabled and available.
    pub policy: SinkPolicy,
}

/// What a notice does to the state: the first one of an activation is
/// handed out, later ones are swallowed.
pub open spec fn spec_warn_once(r: Router, n: Notice) -> (Router, RouterAction) {
    if r.warned {
        (r, RouterAction::Idle)
    } else {
        (Router { warned: true, ..r }, RouterAction::Warn(n))
    }
}

/// The state after a switch to `new`, and the sink to tear down before
/// anything else is done, if one is up that the new mode does not own.
pub open spec fn spec_switch(r: Router, new: OutputMode) -> (Router, Option<OutputMode>) {
    let stop = match r.live {
        Some(s) => if s != new {
            Some(s)
        } else {
            None
        },
        None => None,
    };
    let live = if r.live == Some(new) {
        Some(new)
    } else {
        None
    };
    (Router { mode: new, warned: false, live, policy: r.policy }, stop)
}

/// What a rendered frame leads to.
pub open spec fn spec_frame(r: Router, frame: Frame) -> (Router, RouterAction) {
    if r.mode == OutputMode::Texture {
        (r, RouterAction::Idle)
    } else if !r.policy.spec_available(r.mode) {
        spec_warn_once(r, Notice::Unavailable(r.mode))
    } else if !r.policy.spec_enabled(r.mode) {
        spec_warn_once(r, Notice::Disabled(r.mode))
    } else if r.live == Some(r.mode) {
        (r, RouterAction::Publish(r.mode, frame))
    } else if spec_constructed_on_demand(r.mode) {
        (r, RouterAction::Construct(r.mode))
    } else {
        (Router { live: Some(r.mode), ..r }, RouterAction::Publish(r.mode, frame))
    }
}

/// Whether the router is waiting for the outcome of a construction.
pub open spec fn spec_awaits_construction(r: Router) -> bool {
    &&& spec_constructed_on_demand(r.mode)
    &&& r.policy.spec_available(r.mode)
    &&& r.policy.spec_enabled(r.mode)
    &&& r.live is None
}

/// What the outcome of a construction leads to. An outcome that the router
/// did not ask for changes nothing.
pub open spec fn spec_constructed(r: Router, frame: Frame, ok: bool) -> (Router, RouterAction) {
    if !spec_awaits_construction(r) {
        (r, RouterAction::Idle)
    } else if ok {
        (Router { live: Some(r.mode), ..r }, RouterAction::Publish(r.mode, frame))
    } else {
        spec_warn_once(r, Notice::InitFailed(r.mode))
    }
}

impl Router {
    /// The sink that is up, if any, is the one of the current mode.
    pub open spec fn wf(&self) -> bool {
        self.live matches Some(s) ==> s == self.mode && s != OutputMode::Texture
    }

    /// A router in `mode` with no sink up.
    pub fn new(mode: OutputMode, policy: SinkPolicy) -> (r: Self)
        ensures
            r == (Router { mode, warned: false, live: None, policy }),
            r.wf(),
    {
        Router { mode, warned: false, live: None, policy }
    }

    fn warn_once(&mut self, n: Notice) -> (a: RouterAction)
        ensures
            (*final(self), a) == spec_warn_once(*old(self), n),
    {
        if self.warned {
            RouterAction::Idle
        } else {
            self.warned = true;
            RouterAction::Warn(n)
        }
    }

    /// Makes `new` the current mode. Returns the sink that the caller tears
    /// down first: the one that was up, unless the new mode owns it.
    ///
    /// Afterwards no sink is up that the new mode does not own, and the new
    /// activation has not given its notice yet.
    pub fn switch_mode(&mut self, new: OutputMode) -> (stop: Option<OutputMode>)
        requires
            old(self).wf(),
        ensures
            final(self).wf(),
            (*final(self), stop) == spec_switch(*old(self), new),
    {
        let stop = match self.live {
            Some(s) => if s != new {
                Some(s)
            } else {
                None
            },
            None => None,
        };
        if stop.is_some() {
            self.live = None;
        }
        self.mode = new;
        self.warned = false;
        stop
    }

    /// Routes one rendered frame.
    pub fn frame(&mut self, frame: Frame) -> (a: RouterAction)
        requires
            old(self).wf(),
        ensures
            final(self).wf(),
            (*final(self), a) == spec_frame(*old(self), frame),
    {
        let mode = self.mode;
        if mode == OutputMode::Texture {
            RouterAction::Idle
        } else if !self.policy.available(mode) {
            self.warn_once(Notice::Unavailable(mode))
        } else if !self.policy.enabled(mode) {
            self.warn_once(Notice::Disabled(mode))
        } else if self.live == Some(mode) {
            RouterAction::Publish(mode, frame)
        } else if mode == OutputMode::Syphon || mode == OutputMode::Spout {
            RouterAction::Construct(mode)
        } else {
            self.live = Some(mode);
            RouterAction::Publish(mode, frame)
        }
    }

    /// Takes the outcome of the construction that [`Self::frame`] asked for.
    pub fn constructed(&mut self, frame: Frame, ok: bool) -> (a: RouterAction)
        requires
            old(self).wf(),
        ensures
            final(self).wf(),
            (*final(self), a) == spec_constructed(*old(self), frame, ok),
    {
        let mode = self.mode;
        let awaited = (mode == OutputMode::Syphon || mode == OutputMode::Spout)
            && self.policy.available(mode) && self.policy.enabled(mode) && self.live.is_none();
        if !awaited {
            RouterAction::Idle
        } else if ok {
            self.live = Some(mode);
            RouterAction::Publish(mode, frame)
        } else {
            self.warn_once(Notice::InitFailed(mode))
        }
    }

    /// Takes the news that the sink did not take a frame.
    pub fn send_failed(&mut self) -> (a: RouterAction)
        requires
            old(self).wf(),
        ensures
            final(self).wf(),
            (*final(self), a) == spec_warn_once(*old(self), Notice::SendFailed(old(self).mode)),
    {
        let mode = self.mode;
        self.warn_once(Notice::SendFailed(mode))
    }
}

/// Leaving a mode whose sink is up stops that sink: the switch names it for
/// teardown and, in the state in which the new mode is current, it is no
/// longer up.
pub proof fn lemma_switch_stops_live_sink(r: Router, new: OutputMode, sink: OutputMode)
    requires
        r.wf(),
        r.live == Some(sink),
        sink != new,
    ensures
        spec_switch(r, new).1 == Some(sink),
        spec_switch(r, new).0.mode == new,
        spec_switch(r, new).0.live is None,
{
}

/// At most one sink is up, and it is the current mode's: every transition
/// of the router keeps this.
pub proof fn lemma_router_keeps_one_sink(r: Router, new: OutputMode, frame: Frame, ok: bool, n: Notice)
    requires
        r.wf(),
    ensures
        spec_switch(r, new).0.wf(),
        spec_frame(r, frame).0.wf(),
        spec_constructed(r, frame, ok).0.wf(),
        spec_warn_once(r, n).0.wf(),
{
}

/// A sink gets the frame it was routed: the same texture, width and height.
pub proof fn lemma_publish_carries_frame(r: Router, frame: Frame, ok: bool)
    ensures
        spec_frame(r, frame).1 matches RouterAction::Publish(m, f) ==> m == r.mode && f == frame,
        spec_constructed(r, frame, ok).1 matches RouterAction::Publish(m, f) ==> m == r.mode && f
            == frame,
{
}

/// A mode gives its notice once: after the first notice of an activation,
/// frames lead to no further one until the mode is switched.
pub proof fn lemma_notice_once(r: Router, frame: Frame)
    requires
        r.warned,
    ensures
        !(spec_frame(r, frame).1 is Warn),
        spec_frame(r, frame).0.warned,
{
}

} // verus!
