use vstd::prelude::*;

use crate::event::{GameEvent, Key, MouseButton};

verus! {

/// Which movement keys the gameplay logic considers held.
#[derive(Debug, Clone, Copy, PartialEq, Eq, Structural, Default)]
pub struct InputState {
    pub forward: bool,
    pub back: bool,
    pub left: bool,
    pub right: bool,
    pub up: bool,
    pub down: bool,
}

pub open spec fn axis(positive: bool, negative: bool) -> i32 {
    ((if positive { 1int } else { 0int }) - (if negative { 1int } else { 0int })) as i32
}

fn unit(b: bool) -> (r: i32)
    ensures
        r == if b { 1i32 } else { 0i32 },
{
    if b { 1 } else { 0 }
}

/// The direction the held keys ask to move in, each component -1, 0 or 1.
#[derive(Debug, Clone, Copy, PartialEq, Eq, Structural)]
pub struct Movement {
    pub forward: i32,
    pub side: i32,
    pub vertical: i32,
}

impl InputState {
    pub open spec fn spec_movement(self) -> Movement {
        Movement {
            forward: axis(self.forward, self.back),
            side: axis(self.right, self.left),
            vertical: axis(self.up, self.down),
        }
    }

    /// The state after a movement key was pressed or released.
    pub open spec fn with_key(self, key: Key, pressed: bool) -> InputState {
        match key {
            Key::W => InputState { forward: pressed, ..self },
            Key::S => InputState { back: pressed, ..self },
            Key::A => InputState { left: pressed, ..self },
            Key::D => InputState { right: pressed, ..self },
            Key::Space => InputState { up: pressed, ..self },
            Key::LControl => InputState { down: pressed, ..self },
            _ => self,
        }
    }

    /// Forward minus back, right minus left, up minus down.
    pub fn movement(&self) -> (r: Movement)
        ensures
            r == self.spec_movement(),
    {
        Movement {
            forward: unit(self.forward) - unit(self.back),
            side: unit(self.right) - unit(self.left),
            vertical: unit(self.up) - unit(self.down),
        }
    }

    /// Records a movement key; other keys leave the state as it is.
    pub fn set_key(&mut self, key: Key, pressed: bool)
        ensures
            *final(self) == old(self).with_key(key, pressed),
    {
        match key {
            Key::W => self.forward = pressed,
            Key::S => self.back = pressed,
            Key::A => self.left = pressed,
            Key::D => self.right = pressed,
            Key::Space => self.up = pressed,
            Key::LControl => self.down = pressed,
            _ => {},
        }
    }
}

/// The events the gameplay logic reacts to.
#[derive(Debug, Clone, Copy, PartialEq, Eq, Structural)]
pub enum LogicEvent {
    /// Relative mouse motion while the cursor is captured.
    MouseMotion,
    MouseInput { button: MouseButton, pressed: bool },
    KeyboardInput { key: Key, pressed: bool },
    Game(GameEvent),
    Other,
}

/// What the gameplay logic decided about an event.
#[derive(Debug, Clone, Copy, PartialEq, Eq, Structural)]
pub struct LogicResponse {
    /// The event stops here.
    pub consumed: bool,
    /// Turn the camera by the mouse motion.
    pub rotate_camera: bool,
    /// Spawn a test entity.
    pub spawn: bool,
    /// An event to send back into the main loop.
    pub send: Option<GameEvent>,
}

/// The response of the gameplay logic to `event`.
pub open spec fn logic_response(event: LogicEvent) -> LogicResponse {
    match event {
        LogicEvent::MouseMotion => LogicResponse { consumed: true, rotate_camera: true, spawn: false, send: None },
        LogicEvent::MouseInput { button, pressed } => LogicResponse {
            consumed: false,
            rotate_camera: false,
            spawn: false,
            send: if pressed && button == MouseButton::Left {
                Some(GameEvent::SetMouseGrab(true))
            } else {
                None
            },
        },
        LogicEvent::KeyboardInput { key, .. } => LogicResponse {
            consumed: true,
            rotate_camera: false,
            spawn: false,
            send: if key == Key::Escape {
                Some(GameEvent::SetMouseGrab(false))
            } else {
                None
            },
        },
        LogicEvent::Game(GameEvent::TestEvent) => LogicResponse {
            consumed: true,
            rotate_camera: false,
            spawn: true,
            send: None,
        },
        _ => LogicResponse { consumed: false, rotate_camera: false, spawn: false, send: None },
    }
}

/// Gameplay decisions: camera look, held movement keys, mouse capture and
/// test spawns.
pub struct LogicLayer {
    input_state: InputState,
}

impl LogicLayer {
    pub closed spec fn keys(&self) -> InputState {
        self.input_state
    }

    pub fn new() -> (r: Self)
        ensures
            r.keys() == (InputState {
                forward: false,
                back: false,
                left: false,
                right: false,
                up: false,
                down: false,
            }),
    {
        LogicLayer {
            input_state: InputState {
                forward: false,
                back: false,
                left: false,
                right: false,
                up: false,
                down: false,
            },
        }
    }

    pub fn input_state(&self) -> (r: &InputState)
        ensures
            *r == self.keys(),
    {
        &self.input_state
    }

    /// Decides what to do with `event`; keyboard events update the held
    /// movement keys.
    pub fn on_event(&mut self, event: LogicEvent) -> (r: LogicResponse)
        ensures
            r == logic_response(event),
            event matches LogicEvent::KeyboardInput { key, pressed } ==> final(self).keys()
                == old(self).keys().with_key(key, pressed),
            !(event is KeyboardInput) ==> final(self).keys() == old(self).keys(),
    {
        match event {
            LogicEvent::MouseMotion => LogicResponse {
                consumed: true,
                rotate_camera: true,
                spawn: false,
                send: None,
            },
            LogicEvent::MouseInput { button, pressed } => {
                let send = if pressed && button == MouseButton::Left {
                    Some(GameEvent::SetMouseGrab(true))
                } else {
                    None
                };
                LogicResponse { consumed: false, rotate_camera: false, spawn: false, send }
            },
            LogicEvent::KeyboardInput { key, pressed } => {
                self.input_state.set_key(key, pressed);
                let send = if key == Key::Escape {
                    Some(GameEvent::SetMouseGrab(false))
                } else {
                    None
                };
                LogicResponse { consumed: true, rotate_camera: false, spawn: false, send }
            },
            LogicEvent::Game(GameEvent::TestEvent) => LogicResponse {
                consumed: true,
                rotate_camera: false,
                spawn: true,
                send: None,
            },
            _ => LogicResponse { consumed: false, rotate_camera: false, spawn: false, send: None },
        }
    }
}

/// The models a test spawn picks from.
#[derive(Debug, Clone, Copy, PartialEq, Eq, Structural)]
pub enum SpawnModel {
    Torus,
    Monkey,
}

/// The textures a test spawn picks from.
#[derive(Debug, Clone, Copy, PartialEq, Eq, Structural)]
pub enum SpawnTexture {
    Texture0,
    Texture1,
}

impl SpawnModel {
    pub open spec fn spec_name(self) -> Seq<char> {
        match self {
            SpawnModel::Torus => seq!['t', 'o', 'r', 'u', 's'],
            SpawnModel::Monkey => seq!['m', 'o', 'n', 'k', 'e', 'y'],
        }
    }

    /// The model registry name.
    pub fn name(&self) -> (r: &'static str)
        ensures
            r@ == self.spec_name(),
    {
        proof {
            reveal_strlit("torus");
            reveal_strlit("monkey");
        }
        match self {
            SpawnModel::Torus => "torus",
            SpawnModel::Monkey => "monkey",
        }
    }
}

impl SpawnTexture {
    pub open spec fn spec_name(self) -> Seq<char> {
        match self {
            SpawnTexture::Texture0 => seq!['t', 'e', 'x', 't', 'u', 'r', 'e', '0'],
            SpawnTexture::Texture1 => seq!['t', 'e', 'x', 't', 'u', 'r', 'e', '1'],
        }
    }

    /// The texture registry name.
    pub fn name(&self) -> (r: &'static str)
        ensures
            r@ == self.spec_name(),
    {
        proof {
            reveal_strlit("texture0");
            reveal_strlit("texture1");
        }
        match self {
            SpawnTexture::Texture0 => "texture0",
            SpawnTexture::Texture1 => "texture1",
        }
    }
}

/// What a test spawn creates.
#[derive(Debug, Clone, Copy, PartialEq, Eq, Structural)]
pub struct SpawnRequest {
    pub model: SpawnModel,
    pub texture: SpawnTexture,
}

/// The spawn made from two coin flips: the first picks the torus over the
/// monkey, the second the first texture over the second.
pub open spec fn spec_spawn_choice(model_coin: bool, texture_coin: bool) -> SpawnRequest {
    SpawnRequest {
        model: if model_coin { SpawnModel::Torus } else { SpawnModel::Monkey },
        texture: if texture_coin { SpawnTexture::Texture0 } else { SpawnTexture::Texture1 },
    }
}

pub fn spawn_choice(model_coin: bool, texture_coin: bool) -> (r: SpawnRequest)
    ensures
        r == spec_spawn_choice(model_coin, texture_coin),
{
    SpawnRequest {
        model: if model_coin { SpawnModel::Torus } else { SpawnModel::Monkey },
        texture: if texture_coin { SpawnTexture::Texture0 } else { SpawnTexture::Texture1 },
    }
}

/// A test spawn picked at random.
pub fn random_spawn() -> (r: SpawnRequest)
    ensures
        exists|a: bool, b: bool| r == spec_spawn_choice(a, b),
{
    let model_coin = coin();
    let texture_coin = coin();
    spawn_choice(model_coin, texture_coin)
}

/// Relies on `rand::random::<bool>`: a fair coin from the thread-local
/// generator; nothing is known of the outcome.
#[verifier::external_body]
fn coin() -> bool {
    rand::random::<bool>()
}

} // verus!
