use vstd::prelude::*;

use crate::event::{GameEvent, Key, MouseButton};
use crate::layer::logic::{self, Movement};

verus! {

/// Which movement keys are held down.
#[derive(Debug, Clone, Copy, PartialEq, Eq, Structural, Default)]
pub struct InputState {
    pub forward: bool,
    pub back: bool,
    pub left: bool,
    pub right: bool,
    pub up: bool,
    pub down: bool,
}

/// The movement key a key maps to, as an index into the fields of
/// [`InputState`] in declaration order.
pub open spec fn movement_slot(key: Key) -> Option<int> {
    match key {
        Key::W => Some(0),
        Key::S => Some(1),
        Key::A => Some(2),
        Key::D => Some(3),
        Key::Space => Some(4),
        Key::LControl => Some(5),
        _ => None,
    }
}

impl InputState {
    /// The keys as the gameplay logic holds them.
    pub open spec fn spec_held(self) -> logic::InputState {
        logic::InputState {
            forward: self.forward,
            back: self.back,
            left: self.left,
            right: self.right,
            up: self.up,
            down: self.down,
        }
    }

    /// The direction the held keys ask to move in.
    pub fn movement(&self) -> (r: Movement)
        ensures
            r == self.spec_held().spec_movement(),
    {
        let held = logic::InputState {
            forward: self.forward,
            back: self.back,
            left: self.left,
            right: self.right,
            up: self.up,
            down: self.down,
        };
        held.movement()
    }

    /// The state after a movement key was pressed or released.
    pub open spec fn with_key(self, key: Key, pressed: bool) -> InputState {
        match key {
            Key::W => InputState { forward: pressed, ..self },
            Key::S => InputState { back: pressed, ..self },
            Key::A => InputState { left: pressed, ..self },
            Key::D => InputState { right: pressed, ..self },
            Key::Space => InputState { up: pressed, ..self },
            Key::LControl => InputState { down: pressed, ..self },
            _ => self,
        }
    }

    /// Records a movement key; reports whether `key` is one.
    pub fn set_key(&mut self, key: Key, pressed: bool) -> (r: bool)
        ensures
            r == movement_slot(key) is Some,
            *final(self) == old(self).with_key(key, pressed),
    {
        match key {
            Key::W => self.forward = pressed,
            Key::S => self.back = pressed,
            Key::A => self.left = pressed,
            Key::D => self.right = pressed,
            Key::Space => self.up = pressed,
            Key::LControl => self.down = pressed,
            _ => return false,
        }
        true
    }
}

/// What the input layer did with an event.
#[derive(Debug, Clone, Copy, PartialEq, Eq, Structural)]
pub struct InputResponse {
    /// The event stops here.
    pub consumed: bool,
    /// An event to send back into the main loop.
    pub send: Option<GameEvent>,
}

/// Tracks held movement keys and whether the mouse is captured.
pub struct InputLayer {
    state: InputState,
    mouse_grab_state: bool,
}

impl InputLayer {
    pub closed spec fn grabbed(&self) -> bool {
        self.mouse_grab_state
    }

    /// The held movement keys.
    pub closed spec fn keys(&self) -> InputState {
        self.state
    }

    pub fn state(&self) -> (r: &InputState)
        ensures
            *r == self.keys(),
    {
        &self.state
    }

    pub fn new() -> (r: Self)
        ensures
            r.keys() == (InputState {
                forward: false,
                back: false,
                left: false,
                right: false,
                up: false,
                down: false,
            }),
            !r.grabbed(),
    {
        InputLayer {
            state: InputState {
                forward: false,
                back: false,
                left: false,
                right: false,
                up: false,
                down: false,
            },
            mouse_grab_state: false,
        }
    }

    pub fn is_grabbed(&self) -> (r: bool)
        ensures
            r == self.grabbed(),
    {
        self.mouse_grab_state
    }

    /// Movement keys update the held-key state; Escape releases a captured
    /// mouse. Both are consumed; other keys are not.
    pub fn handle_key_input(&mut self, key: Key, pressed: bool) -> (r: InputResponse)
        ensures
            final(self).keys() == old(self).keys().with_key(key, pressed),
            r.consumed == (movement_slot(key) is Some || key == Key::Escape),
            key == Key::Escape ==> !final(self).grabbed(),
            key != Key::Escape ==> final(self).grabbed() == old(self).grabbed(),
            r.send == if key == Key::Escape && old(self).grabbed() {
                Some(GameEvent::SetMouseGrab(false))
            } else {
                None
            },
    {
        if self.state.set_key(key, pressed) {
            return InputResponse { consumed: true, send: None };
        }
        match key {
            Key::Escape => {
                if self.mouse_grab_state {
                    self.mouse_grab_state = false;
                    InputResponse { consumed: true, send: Some(GameEvent::SetMouseGrab(false)) }
                } else {
                    InputResponse { consumed: true, send: None }
                }
            },
            _ => InputResponse { consumed: false, send: None },
        }
    }

    /// A left-button press captures the mouse and is consumed.
    pub fn handle_mouse_input(&mut self, button: MouseButton, pressed: bool) -> (r: InputResponse)
        ensures
            final(self).keys() == old(self).keys(),
            (pressed && button == MouseButton::Left) ==> final(self).grabbed() && r == (InputResponse {
                consumed: true,
                send: Some(GameEvent::SetMouseGrab(true)),
            }),
            !(pressed && button == MouseButton::Left) ==> final(self).grabbed() == old(self).grabbed()
                && r == (InputResponse { consumed: false, send: None }),
    {
        if pressed && button == MouseButton::Left {
            self.mouse_grab_state = true;
            InputResponse { consumed: true, send: Some(GameEvent::SetMouseGrab(true)) }
        } else {
            InputResponse { consumed: false, send: None }
        }
    }
}

} // verus!
