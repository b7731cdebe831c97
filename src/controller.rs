//! The event controller: a state machine from window events to view changes,
//! resource rebuild requests and redraws.
//!
//! The window loop hands each event to [`Controller::handle`] and carries out
//! the [`Action`] it returns. A resize is answered with a request to rebuild
//! the size-dependent GPU resources; the loop then reports whether the rebuild
//! succeeded, and only a success installs the new size. A frame is drawn only
//! while [`Controller::pending_redraw`] is set.

use vstd::prelude::*;
use crate::view::{
    derived_height, derive_height, ViewState, ZoomError, MAX_DIM, ZOOM_IN, ZOOM_OUT,
};

verus! {

/// A mouse button.
#[derive(Clone, Copy, Debug, PartialEq, Eq, Structural)]
pub enum Button {
    Left,
    Right,
    Middle,
    Other(u16),
}

/// An input or window event, or the outcome of an action.
#[derive(Clone, Copy, Debug, PartialEq, Eq, Structural)]
pub enum Event {
    /// The pointer moved to pixel `(x, y)` of the window.
    PointerMoved { x: i64, y: i64 },
    /// A mouse button was pressed.
    ButtonPressed(Button),
    /// The window's drawable area changed size.
    Resized { width: u32, height: u32 },
    /// The resources requested by [`Action::RebuildResources`] were built.
    ResourcesReady,
    /// Building the requested resources failed; the previous ones remain.
    ResourcesFailed,
    /// A frame was computed and presented.
    FramePresented,
    /// No presentable image could be had; the frame is retried later.
    SurfaceAcquireFailed,
    /// The GPU context was lost.
    DeviceLost,
    /// The user asked to close the window.
    CloseRequested,
}

/// Where the controller stands.
#[derive(Clone, Copy, Debug, PartialEq, Eq, Structural)]
pub enum Phase {
    Idle,
    /// Waiting for the resources of a `width` by `height` viewport.
    AwaitingResize { width: u32, height: u32 },
    /// Terminal: every further event is ignored.
    ExitRequested,
}

/// What the window loop is to do after an event.
#[derive(Clone, Copy, Debug, PartialEq, Eq, Structural)]
pub enum Action {
    Nothing,
    /// Build the off-screen image and bindings for a `width` by `height`
    /// viewport and reconfigure the surface, then report the outcome.
    RebuildResources { width: u32, height: u32 },
    /// Tell the user that the zoom reached the precision floor.
    ReportPrecisionLimit,
    /// Tell the user that the resources for a new size could not be built,
    /// either because the size exceeds what the device accepts or because the
    /// build failed; the previous ones stay installed.
    ReportAllocationFailed,
    /// Stop drawing and release the GPU resources in reverse order of
    /// construction.
    Shutdown,
}

/// The view, the viewport it is shown in, the last pointer position, and
/// whether a frame is owed.
#[derive(Clone, Copy, Debug, PartialEq, Eq, Structural)]
pub struct Controller {
    pub view: ViewState,
    pub width: u32,
    pub height: u32,
    pub pointer_x: i64,
    pub pointer_y: i64,
    pub phase: Phase,
    pub pending_redraw: bool,
}

/// A viewport size that the controller accepts.
pub open spec fn valid_size(width: int, height: int) -> bool {
    1 <= width <= MAX_DIM && 1 <= height <= MAX_DIM
}

/// `v` moved into `[0, hi]`.
pub open spec fn clamp_spec(v: int, hi: int) -> int {
    if v < 0 {
        0
    } else if v > hi {
        hi
    } else {
        v
    }
}

/// The zoom factor, as numerator and denominator, bound to a button.
pub open spec fn zoom_factor_spec(b: Button) -> Option<(u16, u16)> {
    match b {
        Button::Left => Some(ZOOM_IN),
        Button::Right => Some(ZOOM_OUT),
        _ => None,
    }
}

impl Controller {
    pub open spec fn wf(self) -> bool {
        &&& self.view.wf(self.width as int, self.height as int)
        &&& (self.phase matches Phase::AwaitingResize { width, height } ==> valid_size(
            width as int,
            height as int,
        ))
    }

    /// The state after installing a `w` by `h` viewport: the size is taken,
    /// the height of the region follows the new aspect ratio, and a redraw is
    /// owed.
    pub open spec fn resized(self, w: int, h: int) -> Controller {
        Controller {
            view: ViewState {
                extent_y: derived_height(self.view.extent_x as int, w, h) as i64,
                ..self.view
            },
            width: w as u32,
            height: h as u32,
            phase: Phase::Idle,
            pending_redraw: true,
            ..self
        }
    }

    /// The pointer's pixel, held inside the viewport.
    pub open spec fn pointer_pixel(self) -> (int, int) {
        (
            clamp_spec(self.pointer_x as int, self.width as int),
            clamp_spec(self.pointer_y as int, self.height as int),
        )
    }

    /// The outcome of a button press while idle.
    pub open spec fn press_spec(self, b: Button) -> (Controller, Action) {
        match zoom_factor_spec(b) {
            None => (self, Action::Nothing),
            Some(f) => match self.view.zoom_spec(
                self.pointer_pixel().0,
                self.pointer_pixel().1,
                self.width as int,
                self.height as int,
                f.0 as int,
                f.1 as int,
            ) {
                Ok(v) => (Controller { view: v, pending_redraw: true, ..self }, Action::Nothing),
                Err(ZoomError::PrecisionLimitReached) => (self, Action::ReportPrecisionLimit),
            },
        }
    }

    /// The transition on `e`: the next state and the action to carry out.
    pub open spec fn step(self, e: Event) -> (Controller, Action) {
        if self.phase is ExitRequested {
            (self, Action::Nothing)
        } else if e is CloseRequested || e is DeviceLost {
            (
                Controller { phase: Phase::ExitRequested, pending_redraw: false, ..self },
                Action::Shutdown,
            )
        } else if let Phase::AwaitingResize { width, height } = self.phase {
            match e {
                Event::ResourcesReady => (self.resized(width as int, height as int), Action::Nothing),
                Event::ResourcesFailed => (
                    Controller { phase: Phase::Idle, ..self },
                    Action::ReportAllocationFailed,
                ),
                _ => (self, Action::Nothing),
            }
        } else {
            match e {
                Event::PointerMoved { x, y } => (
                    Controller { pointer_x: x, pointer_y: y, ..self },
                    Action::Nothing,
                ),
                Event::ButtonPressed(b) => self.press_spec(b),
                Event::Resized { width, height } => if width == 0 || height == 0 {
                    (self, Action::Nothing)
                } else if valid_size(width as int, height as int) {
                    (
                        Controller { phase: Phase::AwaitingResize { width, height }, ..self },
                        Action::RebuildResources { width, height },
                    )
                } else {
                    (self, Action::ReportAllocationFailed)
                },
                Event::FramePresented => (
                    Controller { pending_redraw: false, ..self },
                    Action::Nothing,
                ),
                _ => (self, Action::Nothing),
            }
        }
    }

    /// A controller for a `width` by `height` viewport showing the initial
    /// view, with the first frame owed.
    pub fn new(width: u32, height: u32) -> (r: Controller)
        requires
            valid_size(width as int, height as int),
        ensures
            r.wf(),
            r.view == ViewState::initial_spec(width as int, height as int),
            r.width == width,
            r.height == height,
            r.pointer_x == 0,
            r.pointer_y == 0,
            r.phase == Phase::Idle,
            r.pending_redraw,
    {
        Controller {
            view: ViewState::initial(width, height),
            width,
            height,
            pointer_x: 0,
            pointer_y: 0,
            phase: Phase::Idle,
            pending_redraw: true,
        }
    }

    /// Installs a `width` by `height` viewport: records the size, derives the
    /// region's height from the new aspect ratio, and owes a redraw.
    pub fn on_resize(&mut self, width: u32, height: u32)
        requires
            old(self).wf(),
            valid_size(width as int, height as int),
        ensures
            *final(self) == old(self).resized(width as int, height as int),
            final(self).wf(),
    {
        let extent_y = derive_height(self.view.extent_x, width, height);
        self.view.extent_y = extent_y;
        self.width = width;
        self.height = height;
        self.phase = Phase::Idle;
        self.pending_redraw = true;
    }

    /// Handles one event and returns what the window loop is to do.
    pub fn handle(&mut self, event: Event) -> (r: Action)
        requires
            old(self).wf(),
        ensures
            (*final(self), r) == old(self).step(event),
            final(self).wf(),
    {
        if let Phase::ExitRequested = self.phase {
            return Action::Nothing;
        }
        match event {
            Event::CloseRequested | Event::DeviceLost => {
                self.phase = Phase::ExitRequested;
                self.pending_redraw = false;
                return Action::Shutdown;
            },
            _ => {},
        }
        if let Phase::AwaitingResize { width, height } = self.phase {
            return match event {
                Event::ResourcesReady => {
                    self.on_resize(width, height);
                    Action::Nothing
                },
                Event::ResourcesFailed => {
                    self.phase = Phase::Idle;
                    Action::ReportAllocationFailed
                },
                _ => Action::Nothing,
            };
        }
        match event {
            Event::PointerMoved { x, y } => {
                self.pointer_x = x;
                self.pointer_y = y;
                Action::Nothing
            },
            Event::ButtonPressed(b) => self.press(b),
            Event::Resized { width, height } => {
                if width == 0 || height == 0 {
                    Action::Nothing
                } else if width <= MAX_DIM && height <= MAX_DIM {
                    self.phase = Phase::AwaitingResize { width, height };
                    Action::RebuildResources { width, height }
                } else {
                    Action::ReportAllocationFailed
                }
            },
            Event::FramePresented => {
                self.pending_redraw = false;
                Action::Nothing
            },
            _ => Action::Nothing,
        }
    }

    /// Zooms about the pointer for a press of `b`, while idle.
    fn press(&mut self, b: Button) -> (r: Action)
        requires
            old(self).wf(),
            old(self).phase is Idle,
        ensures
            (*final(self), r) == old(self).press_spec(b),
            final(self).wf(),
    {
        let factor = zoom_factor(b);
        match factor {
            None => Action::Nothing,
            Some((num, den)) => {
                let px = clamp_to(self.pointer_x, self.width);
                let py = clamp_to(self.pointer_y, self.height);
                match self.view.pan_zoom(px, py, self.width, self.height, num, den) {
                    Ok(v) => {
                        self.view = v;
                        self.pending_redraw = true;
                        Action::Nothing
                    },
                    Err(ZoomError::PrecisionLimitReached) => Action::ReportPrecisionLimit,
                }
            },
        }
    }
}

/// The zoom factor bound to a button: a half for the left one, two for the
/// right one, none for the others.
pub fn zoom_factor(b: Button) -> (r: Option<(u16, u16)>)
    ensures
        r == zoom_factor_spec(b),
{
    match b {
        Button::Left => Some(ZOOM_IN),
        Button::Right => Some(ZOOM_OUT),
        _ => None,
    }
}

/// `v` moved into `[0, hi]`.
fn clamp_to(v: i64, hi: u32) -> (r: u32)
    ensures
        r == clamp_spec(v as int, hi as int),
{
    if v < 0 {
        0
    } else if v > hi as i64 {
        hi
    } else {
        v as u32
    }
}

/// Applying the same resize twice leaves the controller as applying it once.
pub proof fn lemma_resize_idempotent(c: Controller, w: int, h: int)
    requires
        c.wf(),
        valid_size(w, h),
    ensures
        c.resized(w, h).resized(w, h) == c.resized(w, h),
{
}

/// A zoom refused at the precision floor leaves the controller unchanged.
pub proof fn lemma_precision_limit_keeps_state(c: Controller, b: Button)
    requires
        c.wf(),
        c.phase is Idle,
        c.press_spec(b).1 == Action::ReportPrecisionLimit,
    ensures
        c.step(Event::ButtonPressed(b)).0 == c,
{
}

} // verus!
