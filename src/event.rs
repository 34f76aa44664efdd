use vstd::prelude::*;

use crate::render::frame::FrameLifecycle;

verus! {

/// Application-level events that layers send back into the main loop.
#[derive(Debug, Clone, Copy, PartialEq, Eq, Structural)]
pub enum GameEvent {
    /// Spawn a test entity.
    TestEvent,
    /// Capture (`true`) or release (`false`) the mouse cursor.
    SetMouseGrab(bool),
}

/// Keys the input handling reacts to.
#[derive(Debug, Clone, Copy, PartialEq, Eq, Structural)]
pub enum Key {
    W,
    S,
    A,
    D,
    Space,
    LControl,
    Escape,
    Other,
}

/// Mouse buttons, as far as the input handling tells them apart.
#[derive(Debug, Clone, Copy, PartialEq, Eq, Structural)]
pub enum MouseButton {
    Left,
    Other,
}

/// The window events the main loop tells apart.
#[derive(Debug, Clone, Copy, PartialEq, Eq, Structural)]
pub enum WindowEventKind {
    Resized,
    CloseRequested,
    MouseInput,
    MouseWheel,
    KeyboardInput,
    CursorMoved,
    Focused,
    ModifiersChanged,
    CursorEntered,
    CursorLeft,
    ReceivedCharacter,
    Other,
}

/// Whether a window event is handed to the layers at all.
pub open spec fn reaches_layers(kind: WindowEventKind) -> bool {
    kind != WindowEventKind::Other
}

/// What the main loop does with a window event.
#[derive(Debug, Clone, Copy, PartialEq, Eq, Structural)]
pub enum WindowRoute {
    /// Leave the event loop.
    Exit,
    /// Drop the event.
    Ignore,
    /// Hand the event to the layer stack.
    Deliver,
}

/// The main loop's own state: whether the cursor is captured, and the
/// swapchain lifecycle it drives.
pub struct MainLoop {
    frame: FrameLifecycle,
    mouse_grabbed: bool,
}

impl MainLoop {
    pub closed spec fn grabbed(&self) -> bool {
        self.mouse_grabbed
    }

    pub closed spec fn lifecycle(&self) -> FrameLifecycle {
        self.frame
    }

    /// The swapchain lifecycle, for driving a frame.
    pub fn frame_mut(&mut self) -> (r: &mut FrameLifecycle)
        ensures
            *r == old(self).lifecycle(),
            final(self).lifecycle() == *final(r),
            final(self).grabbed() == old(self).grabbed(),
    {
        &mut self.frame
    }

    pub fn new() -> (r: Self)
        ensures
            !r.grabbed(),
            r.lifecycle().idle(),
            !r.lifecycle().stale(),
    {
        MainLoop { frame: FrameLifecycle::new(), mouse_grabbed: false }
    }

    pub fn is_grabbed(&self) -> (r: bool)
        ensures
            r == self.grabbed(),
    {
        self.mouse_grabbed
    }

    /// A resize marks the swapchain stale and is delivered; a close request
    /// ends the loop; cursor motion is dropped while the cursor is captured;
    /// events the layers do not know are dropped.
    pub fn on_window_event(&mut self, kind: WindowEventKind) -> (r: WindowRoute)
        ensures
            final(self).grabbed() == old(self).grabbed(),
            kind == WindowEventKind::Resized ==> final(self).lifecycle().stale(),
            kind != WindowEventKind::Resized ==> final(self).lifecycle().stale() == old(self).lifecycle().stale(),
            final(self).lifecycle().idle() == old(self).lifecycle().idle(),
            final(self).lifecycle().actions() == old(self).lifecycle().actions(),
            r == if kind == WindowEventKind::CloseRequested {
                WindowRoute::Exit
            } else if kind == WindowEventKind::CursorMoved && old(self).grabbed() {
                WindowRoute::Ignore
            } else if reaches_layers(kind) {
                WindowRoute::Deliver
            } else {
                WindowRoute::Ignore
            },
    {
        if kind == WindowEventKind::Resized {
            self.frame.invalidate();
        }
        if kind == WindowEventKind::CloseRequested {
            WindowRoute::Exit
        } else if kind == WindowEventKind::CursorMoved && self.mouse_grabbed {
            WindowRoute::Ignore
        } else if kind != WindowEventKind::Other {
            WindowRoute::Deliver
        } else {
            WindowRoute::Ignore
        }
    }

    /// Relative mouse motion reaches the layers only while the cursor is
    /// captured.
    pub fn on_mouse_motion(&self) -> (r: bool)
        ensures
            r == self.grabbed(),
    {
        self.mouse_grabbed
    }

    /// Applies a capture request; every game event is then delivered to the
    /// layers. Returns the capture state to apply to the window, if any.
    pub fn on_game_event(&mut self, event: GameEvent) -> (r: Option<bool>)
        ensures
            event matches GameEvent::SetMouseGrab(grab) ==> r == Some(grab) && final(self).grabbed()
                == grab,
            event == GameEvent::TestEvent ==> r is None && final(self).grabbed() == old(self).grabbed(),
    {
        match event {
            GameEvent::SetMouseGrab(grab) => {
                self.mouse_grabbed = grab;
                Some(grab)
            },
            GameEvent::TestEvent => None,
        }
    }
}

} // verus!
