//! The preview presenter: a window that shows the rendered frame, or
//! nothing at all when the engine runs without a preview.

use vstd::prelude::*;

verus! {

/// The presenter that shows nothing.
#[derive(Clone, Copy, PartialEq, Eq, Structural, Debug)]
pub struct NullPresenter;

impl Default for NullPresenter {
    fn default() -> (r: Self)
        ensures
            r == NullPresenter,
    {
        NullPresenter
    }
}

/// The presenter that draws into a window.
#[derive(Clone, Copy, PartialEq, Eq, Structural, Debug)]
pub struct WindowPresenter {
    /// The vertex array the frame is drawn with, by its handle.
    pub vao: u32,
}

/// The presenter of a run.
#[derive(Clone, Copy, PartialEq, Eq, Structural, Debug)]
pub enum Presenter {
    /// A window presents each frame.
    Window(WindowPresenter),
    /// Nothing is presented.
    Null(NullPresenter),
}

/// What presenting a frame asks of the caller.
#[derive(Clone, Copy, PartialEq, Eq, Structural, Debug)]
pub struct PresentPlan {
    pub vao: u32,
    pub src_w: i32,
    pub src_h: i32,
    pub win_w: i32,
    pub win_h: i32,
    pub scale_mode: i32,
}

impl WindowPresenter {
    /// What to draw into the window for one frame.
    pub fn present(&self, src_w: i32, src_h: i32, win_w: i32, win_h: i32, scale_mode: i32) -> (r:
        PresentPlan)
        ensures
            r == (PresentPlan { vao: self.vao, src_w, src_h, win_w, win_h, scale_mode }),
    {
        PresentPlan { vao: self.vao, src_w, src_h, win_w, win_h, scale_mode }
    }
}

impl Presenter {
    /// The presenter for a run with or without a preview.
    pub fn for_preview(enabled: bool, vao: u32) -> (r: Self)
        ensures
            r == if enabled {
                Presenter::Window(WindowPresenter { vao })
            } else {
                Presenter::Null(NullPresenter)
            },
    {
        if enabled {
            Presenter::Window(WindowPresenter { vao })
        } else {
            Presenter::Null(NullPresenter)
        }
    }

    /// Whether anything is presented.
    pub fn is_enabled(&self) -> (r: bool)
        ensures
            r == (*self is Window),
    {
        match self {
            Presenter::Window(_) => true,
            Presenter::Null(_) => false,
        }
    }

    /// The size to give the window surface after the window was resized:
    /// the new size with each side at least one, or nothing when nothing is
    /// presented.
    pub fn resize_window_surface(&self, w: u32, h: u32) -> (r: Option<(u32, u32)>)
        ensures
            r == match *self {
                Presenter::Window(_) => Some(
                    (
                        if w < 1 {
                            1u32
                        } else {
                            w
                        },
                        if h < 1 {
                            1u32
                        } else {
                            h
                        },
                    ),
                ),
                Presenter::Null(_) => None,
            },
    {
        match self {
            Presenter::Window(_) => Some(
                (
                    if w < 1 {
                        1
                    } else {
                        w
                    },
                    if h < 1 {
                        1
                    } else {
                        h
                    },
                ),
            ),
            Presenter::Null(_) => None,
        }
    }

    /// What to draw into the window for one frame, or nothing when nothing
    /// is presented.
    pub fn present(&self, src_w: i32, src_h: i32, win_w: i32, win_h: i32, scale_mode: i32) -> (r: Option<
        PresentPlan,
    >)
        ensures
            r == match *self {
                Presenter::Window(p) => Some(
                    PresentPlan { vao: p.vao, src_w, src_h, win_w, win_h, scale_mode },
                ),
                Presenter::Null(_) => None,
            },
    {
        match self {
            Presenter::Window(p) => Some(
                PresentPlan { vao: p.vao, src_w, src_h, win_w, win_h, scale_mode },
            ),
            Presenter::Null(_) => None,
        }
    }
}

} // verus!
