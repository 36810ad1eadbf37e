//! The decisions of the event loop: which events are passed on, and to
//! whom.
//!
//! The loop itself lives with the windowing system. It turns each of its
//! events into an [`WinitEvent`], asks what to do with it, and does it.

use vstd::prelude::*;

use crate::scheduler::{Event, EventType};

verus! {

/// What happened to a window.
#[derive(Debug, Clone, Copy, PartialEq, Eq, Structural)]
pub enum WindowEvent {
    Resized { width: u32, height: u32 },
    ScaleFactorChanged,
    ActivationTokenDone,
    HoveredFileCancelled,
    Destroyed,
    ThemeChanged,
    HoveredFile,
    RedrawRequested,
    CloseRequested,
    Moved,
    Focused,
    Occluded,
    DroppedFile,
}

/// An event of the event loop.
#[derive(Debug, Clone, Copy, PartialEq, Eq, Structural)]
pub enum WinitEvent {
    /// The loop takes up events again; `init` when it does so first.
    NewEvents { init: bool },
    WindowEvent { window_id: u64, event: WindowEvent },
    UserEvent(Event),
    Suspended,
    Resumed,
    LoopExiting,
    MemoryWarning,
    AboutToWait,
}

/// What the event loop does with an event.
#[derive(Debug, Clone, Copy, PartialEq, Eq, Structural)]
pub enum Dispatch {
    /// The event is dropped.
    Skip,
    /// The first window is created.
    CreateInitialWindow,
    /// The window has a frame to draw into, and is drawn if it is dirty.
    FrameReady { window_id: u64 },
    /// The window handles the event and is drawn.
    Redraw { window_id: u64 },
    /// Every window handles its pending events, and the timers are run.
    ProcessPending,
    /// Every window handles the event.
    ToAllWindows,
    /// The window handles the event.
    ToWindow { window_id: u64 },
}

/// Width and height of a window, in pixels.
#[derive(Debug, Clone, Copy, PartialEq, Eq, Structural)]
pub struct PhysicalSize {
    pub width: u32,
    pub height: u32,
}

/// Size that a window is to take.
#[derive(Debug, Default, Clone, Copy, PartialEq, Eq, Structural)]
pub struct DisplayUpdate {
    pub dirty: bool,
    pub dimensions: Option<PhysicalSize>,
    pub cursor_dirty: bool,
}

/// Whether `event` is of no use and dropped at once.
pub open spec fn spec_skip_event(event: WinitEvent) -> bool {
    match event {
        WinitEvent::NewEvents { init } => !init,
        WinitEvent::WindowEvent { event, .. } => event is HoveredFileCancelled || event is Destroyed
            || event is HoveredFile || event is Moved,
        WinitEvent::Suspended => true,
        _ => false,
    }
}

/// What the event loop does with `event`.
pub open spec fn spec_dispatch(event: WinitEvent) -> Dispatch {
    if spec_skip_event(event) {
        Dispatch::Skip
    } else {
        match event {
            WinitEvent::Resumed => Dispatch::CreateInitialWindow,
            WinitEvent::UserEvent(Event { window_id: Some(window_id), payload: EventType::Frame }) => {
                Dispatch::FrameReady { window_id }
            },
            WinitEvent::WindowEvent { window_id, event: WindowEvent::RedrawRequested } => {
                Dispatch::Redraw { window_id }
            },
            WinitEvent::AboutToWait => Dispatch::ProcessPending,
            WinitEvent::UserEvent(Event { window_id: None, .. }) => Dispatch::ToAllWindows,
            WinitEvent::WindowEvent { window_id, .. } => Dispatch::ToWindow { window_id },
            WinitEvent::UserEvent(Event { window_id: Some(window_id), .. }) => Dispatch::ToWindow {
                window_id,
            },
            _ => Dispatch::Skip,
        }
    }
}

/// Whether `event` is of no use and dropped at once.
pub fn skip_event(event: &WinitEvent) -> (r: bool)
    ensures
        r == spec_skip_event(*event),
{
    match event {
        WinitEvent::NewEvents { init } => !*init,
        WinitEvent::WindowEvent { event, .. } => match event {
            WindowEvent::HoveredFileCancelled => true,
            WindowEvent::Destroyed => true,
            WindowEvent::HoveredFile => true,
            WindowEvent::Moved => true,
            _ => false,
        },
        WinitEvent::Suspended => true,
        _ => false,
    }
}

/// What the event loop does with `event`.
pub fn dispatch(event: &WinitEvent) -> (d: Dispatch)
    ensures
        d == spec_dispatch(*event),
{
    if skip_event(event) {
        return Dispatch::Skip;
    }
    match event {
        WinitEvent::Resumed => Dispatch::CreateInitialWindow,
        WinitEvent::UserEvent(user) => match (user.window_id, user.payload) {
            (Some(window_id), EventType::Frame) => Dispatch::FrameReady { window_id },
            (None, _) => Dispatch::ToAllWindows,
            (Some(window_id), _) => Dispatch::ToWindow { window_id },
        },
        WinitEvent::WindowEvent { window_id, event } => match event {
            WindowEvent::RedrawRequested => Dispatch::Redraw { window_id: *window_id },
            _ => Dispatch::ToWindow { window_id: *window_id },
        },
        WinitEvent::AboutToWait => Dispatch::ProcessPending,
        _ => Dispatch::Skip,
    }
}

/// What the renderer has to do before the next frame is drawn.
#[derive(Debug, Default, Clone, Copy, PartialEq, Eq, Structural)]
pub struct RendererUpdate {
    /// Whether the renderer takes a new size.
    pub resize: bool,
}

/// The size of a window and what is pending for it.
#[derive(Debug, Clone, Copy, PartialEq, Eq, Structural)]
pub struct DisplayState {
    pub size: PhysicalSize,
    pub pending_update: DisplayUpdate,
    pub pending_renderer_update: Option<RendererUpdate>,
}

impl DisplayState {
    /// The state after the pending update was handled: the window has the
    /// size that was pending, and the renderer is to take it if it is a new
    /// one; nothing is pending for the window.
    pub open spec fn updated(self) -> DisplayState {
        let size = match self.pending_update.dimensions {
            Some(dimensions) => dimensions,
            None => self.size,
        };
        DisplayState {
            size,
            pending_update: DisplayUpdate { dirty: false, dimensions: None, cursor_dirty: false },
            pending_renderer_update: if size != self.size {
                Some(RendererUpdate { resize: true })
            } else {
                self.pending_renderer_update
            },
        }
    }

    /// Handles the pending update.
    pub fn handle_update(&mut self)
        ensures
            *final(self) == old(self).updated(),
    {
        let size: PhysicalSize = match self.pending_update.dimensions {
            Some(dimensions) => dimensions,
            None => self.size,
        };
        self.pending_update = DisplayUpdate { dirty: false, dimensions: None, cursor_dirty: false };
        if size.width != self.size.width || size.height != self.size.height {
            self.pending_renderer_update = Some(RendererUpdate { resize: true });
        }
        self.size = size;
    }

    /// Takes the pending update of the renderer, if there is one.
    pub fn take_renderer_update(&mut self) -> (update: Option<RendererUpdate>)
        ensures
            update == old(self).pending_renderer_update,
            *final(self) == (DisplayState { pending_renderer_update: None, ..*old(self) }),
    {
        let update: Option<RendererUpdate> = self.pending_renderer_update;
        self.pending_renderer_update = None;
        update
    }
}

impl DisplayUpdate {
    /// The update after a window has handled `event`: a new size is taken
    /// unless it is zero in a dimension.
    pub open spec fn handled(self, event: WinitEvent) -> DisplayUpdate {
        match event {
            WinitEvent::WindowEvent { event: WindowEvent::Resized { width, height }, .. } => {
                if width == 0 || height == 0 {
                    self
                } else {
                    DisplayUpdate { dimensions: Some(PhysicalSize { width, height }), dirty: true, ..self }
                }
            },
            _ => self,
        }
    }

    /// The size that the window is to take.
    pub fn dimensions(&self) -> (d: Option<PhysicalSize>)
        ensures
            d == self.dimensions,
    {
        self.dimensions
    }

    /// Sets the size that the window is to take.
    pub fn set_dimensions(&mut self, dimensions: PhysicalSize)
        ensures
            *final(self) == (DisplayUpdate {
                dimensions: Some(dimensions),
                dirty: true,
                ..*old(self)
            }),
    {
        self.dimensions = Some(dimensions);
        self.dirty = true;
    }

    /// Takes what `event` says of the window's size.
    pub fn handle_event(&mut self, event: &WinitEvent)
        ensures
            *final(self) == old(self).handled(*event),
    {
        match event {
            WinitEvent::WindowEvent { event, .. } => match event {
                WindowEvent::Resized { width, height } => {
                    if *width == 0 || *height == 0 {
                        return ;
                    }
                    self.set_dimensions(PhysicalSize { width: *width, height: *height });
                },
                _ => {},
            },
            _ => {},
        }
    }
}

/// The events that a window has not handled yet, with what decides when it
/// handles them and whether it asks to be drawn.
#[derive(Debug)]
pub struct EventQueue {
    events: Vec<WinitEvent>,
}

impl View for EventQueue {
    type V = Seq<WinitEvent>;

    closed spec fn view(&self) -> Seq<WinitEvent> {
        self.events@
    }
}

/// Whether `event` makes a window handle the events it has kept.
pub open spec fn flushes(event: WinitEvent) -> bool {
    event is AboutToWait || (event matches WinitEvent::WindowEvent { event: e, .. }
        && e is RedrawRequested)
}

/// Whether a window asks to be drawn after it has handled its events at
/// `event`: it has changed, has a frame, is not hidden, and is not being
/// drawn now.
pub open spec fn spec_wants_redraw(dirty: bool, has_frame: bool, occluded: bool, event: WinitEvent)
    -> bool {
    dirty && has_frame && !occluded && !(event matches WinitEvent::WindowEvent { event: e, .. }
        && e is RedrawRequested)
}

/// Whether a window asks to be drawn after it has handled its events.
pub fn wants_redraw(dirty: bool, has_frame: bool, occluded: bool, event: &WinitEvent) -> (r: bool)
    ensures
        r == spec_wants_redraw(dirty, has_frame, occluded, *event),
{
    let redrawing: bool = match event {
        WinitEvent::WindowEvent { event, .. } => match event {
            WindowEvent::RedrawRequested => true,
            _ => false,
        },
        _ => false,
    };
    dirty && has_frame && !occluded && !redrawing
}

impl EventQueue {
    pub fn new() -> (queue: EventQueue)
        ensures
            queue@ == Seq::<WinitEvent>::empty(),
    {
        EventQueue { events: Vec::new() }
    }

    /// Takes `event`. An event that makes the window handle its events
    /// gives the events that were kept, in their order, and leaves none;
    /// any other event is kept and nothing is given.
    pub fn stage(&mut self, event: WinitEvent) -> (ready: Vec<WinitEvent>)
        ensures
            flushes(event) ==> ready@ == old(self)@ && final(self)@ == Seq::<WinitEvent>::empty(),
            !flushes(event) ==> ready@ == Seq::<WinitEvent>::empty() && final(self)@ == old(
                self,
            )@.push(event),
    {
        let flush: bool = match event {
            WinitEvent::AboutToWait => true,
            WinitEvent::WindowEvent { event, .. } => match event {
                WindowEvent::RedrawRequested => true,
                _ => false,
            },
            _ => false,
        };
        let mut ready: Vec<WinitEvent> = Vec::new();
        if flush {
            core::mem::swap(&mut ready, &mut self.events);
        } else {
            self.events.push(event);
        }
        ready
    }
}

} // verus!
