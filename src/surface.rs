//! Decisions of the render loop around its presentation surface: which
//! window events matter, how a frame that could not be presented is
//! recovered, and when the surface is reconfigured or rendering is paused.
//! The windowing and GPU calls themselves are made by the caller.
use vstd::prelude::*;

verus! {

/// A window event, as far as the render loop is concerned.
#[derive(Clone, Copy, Debug, PartialEq, Eq, Structural)]
pub enum WindowEvent {
    EscapePressed,
    FramebufferResized { width: i32, height: i32 },
    Other,
}

/// What the loop does about one window event.
#[derive(Clone, Copy, Debug, PartialEq, Eq, Structural)]
pub enum EventResponse {
    Ignore,
    /// Ask the window to close; the loop ends once it reports so.
    RequestClose,
    /// Acquire the surface anew, then resize it to the given framebuffer size.
    RebuildSurface { width: i32, height: i32 },
}

/// How an attempt to render and present one frame ended.
#[derive(Clone, Copy, Debug, PartialEq, Eq, Structural)]
pub enum FrameOutcome {
    Presented,
    SurfaceLost,
    SurfaceOutdated,
    OtherError,
}

/// What the loop does after one frame.
#[derive(Clone, Copy, Debug, PartialEq, Eq, Structural)]
pub enum FrameResponse {
    Continue,
    /// The surface is stale: acquire it anew and resize it to the window's
    /// current framebuffer size.
    RebuildSurface,
    /// Report the error and go on with the next frame.
    ReportError,
}

pub fn respond_to_event(event: WindowEvent) -> (r: EventResponse)
    ensures
        r == match event {
            WindowEvent::EscapePressed => EventResponse::RequestClose,
            WindowEvent::FramebufferResized { width, height } => EventResponse::RebuildSurface {
                width,
                height,
            },
            WindowEvent::Other => EventResponse::Ignore,
        },
{
    match event {
        WindowEvent::EscapePressed => EventResponse::RequestClose,
        WindowEvent::FramebufferResized { width, height } => EventResponse::RebuildSurface {
            width,
            height,
        },
        WindowEvent::Other => EventResponse::Ignore,
    }
}

pub fn respond_to_frame(outcome: FrameOutcome) -> (r: FrameResponse)
    ensures
        r == match outcome {
            FrameOutcome::Presented => FrameResponse::Continue,
            FrameOutcome::SurfaceLost | FrameOutcome::SurfaceOutdated => FrameResponse::RebuildSurface,
            FrameOutcome::OtherError => FrameResponse::ReportError,
        },
{
    match outcome {
        FrameOutcome::Presented => FrameResponse::Continue,
        FrameOutcome::SurfaceLost | FrameOutcome::SurfaceOutdated => FrameResponse::RebuildSurface,
        FrameOutcome::OtherError => FrameResponse::ReportError,
    }
}

/// The size the surface is configured with, and whether the window is
/// minimized, in which case nothing is rendered.
#[derive(Clone, Copy, Debug, PartialEq, Eq, Structural)]
pub struct SurfaceState {
    pub width: u32,
    pub height: u32,
    pub minimized: bool,
}

impl SurfaceState {
    /// The state for a surface configured at the given framebuffer size.
    pub fn new(width: u32, height: u32) -> (r: SurfaceState)
        ensures
            r == (SurfaceState { width, height, minimized: false }),
    {
        SurfaceState { width, height, minimized: false }
    }

    /// Takes a new framebuffer size. A size with both sides positive becomes
    /// the surface's size and is returned, for the caller to configure the
    /// surface with; any other size means the window is minimized, and the
    /// configured size stays.
    pub fn resize(&mut self, width: i32, height: i32) -> (r: Option<(u32, u32)>)
        ensures
            width > 0 && height > 0 ==> {
                &&& r == Some((width as u32, height as u32))
                &&& *final(self) == (SurfaceState {
                    width: width as u32,
                    height: height as u32,
                    minimized: false,
                })
            },
            !(width > 0 && height > 0) ==> {
                &&& r is None
                &&& *final(self) == (SurfaceState { minimized: true, ..*old(self) })
            },
    {
        if width > 0 && height > 0 {
            self.width = width as u32;
            self.height = height as u32;
            self.minimized = false;
            Some((width as u32, height as u32))
        } else {
            self.minimized = true;
            None
        }
    }

    /// Whether a frame is to be rendered: not while minimized.
    pub fn should_render(&self) -> (r: bool)
        ensures
            r == !self.minimized,
    {
        !self.minimized
    }
}

} // verus!
