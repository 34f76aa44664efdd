use std::sync::Arc;

use libproper::event::{GameEvent, Key, MouseButton};
use libproper::layer::input::{InputLayer, InputResponse, InputState};
use libproper::layer::logic::{
    random_spawn, spawn_choice, InputState as LogicInputState, LogicEvent, LogicLayer, LogicResponse, Movement,
    SpawnModel, SpawnRequest, SpawnTexture,
};
use libproper::resource::cache::Fetch;
use libproper::resource::model::model_path;
use libproper::resource::texture::{texture_path, TextureRegistry};

#[test]
fn input_layer_tracks_movement_keys() {
    let mut layer = InputLayer::new();
    assert_eq!(*layer.state(), InputState::default());
    let r = layer.handle_key_input(Key::W, true);
    assert_eq!(r, InputResponse { consumed: true, send: None });
    assert!(layer.state().forward);
    layer.handle_key_input(Key::LControl, true);
    assert!(layer.state().down);
    layer.handle_key_input(Key::W, false);
    assert!(!layer.state().forward);
    assert_eq!(layer.handle_key_input(Key::Other, true), InputResponse { consumed: false, send: None });
}

#[test]
fn input_layer_mouse_capture() {
    let mut layer = InputLayer::new();
    assert_eq!(layer.handle_key_input(Key::Escape, true), InputResponse { consumed: true, send: None });
    assert_eq!(layer.handle_mouse_input(MouseButton::Other, true), InputResponse { consumed: false, send: None });
    assert_eq!(layer.handle_mouse_input(MouseButton::Left, false), InputResponse { consumed: false, send: None });
    assert!(!layer.is_grabbed());
    assert_eq!(
        layer.handle_mouse_input(MouseButton::Left, true),
        InputResponse { consumed: true, send: Some(GameEvent::SetMouseGrab(true)) }
    );
    assert!(layer.is_grabbed());
    assert_eq!(
        layer.handle_key_input(Key::Escape, true),
        InputResponse { consumed: true, send: Some(GameEvent::SetMouseGrab(false)) }
    );
    assert!(!layer.is_grabbed());
}

#[test]
fn logic_movement_from_held_keys() {
    let mut state = LogicInputState::default();
    assert_eq!(state.movement(), Movement { forward: 0, side: 0, vertical: 0 });
    state.set_key(Key::W, true);
    state.set_key(Key::A, true);
    state.set_key(Key::Space, true);
    assert_eq!(state.movement(), Movement { forward: 1, side: -1, vertical: 1 });
    state.set_key(Key::S, true);
    state.set_key(Key::D, true);
    state.set_key(Key::LControl, true);
    assert_eq!(state.movement(), Movement { forward: 0, side: 0, vertical: 0 });
    state.set_key(Key::W, false);
    assert_eq!(state.movement().forward, -1);
}

#[test]
fn logic_layer_decisions() {
    let mut logic = LogicLayer::new();
    assert_eq!(
        logic.on_event(LogicEvent::MouseMotion),
        LogicResponse { consumed: true, rotate_camera: true, spawn: false, send: None }
    );
    assert_eq!(
        logic.on_event(LogicEvent::MouseInput { button: MouseButton::Left, pressed: true }),
        LogicResponse { consumed: false, rotate_camera: false, spawn: false, send: Some(GameEvent::SetMouseGrab(true)) }
    );
    assert_eq!(
        logic.on_event(LogicEvent::KeyboardInput { key: Key::D, pressed: true }),
        LogicResponse { consumed: true, rotate_camera: false, spawn: false, send: None }
    );
    assert!(logic.input_state().right);
    assert_eq!(
        logic.on_event(LogicEvent::KeyboardInput { key: Key::Escape, pressed: true }),
        LogicResponse { consumed: true, rotate_camera: false, spawn: false, send: Some(GameEvent::SetMouseGrab(false)) }
    );
    assert_eq!(
        logic.on_event(LogicEvent::Game(GameEvent::TestEvent)),
        LogicResponse { consumed: true, rotate_camera: false, spawn: true, send: None }
    );
    assert_eq!(
        logic.on_event(LogicEvent::Game(GameEvent::SetMouseGrab(true))),
        LogicResponse { consumed: false, rotate_camera: false, spawn: false, send: None }
    );
    assert_eq!(logic.on_event(LogicEvent::Other).consumed, false);
}

#[test]
fn spawn_choice_from_coins() {
    assert_eq!(spawn_choice(true, true), SpawnRequest { model: SpawnModel::Torus, texture: SpawnTexture::Texture0 });
    assert_eq!(spawn_choice(false, false), SpawnRequest { model: SpawnModel::Monkey, texture: SpawnTexture::Texture1 });
    assert_eq!(SpawnModel::Torus.name(), "torus");
    assert_eq!(SpawnModel::Monkey.name(), "monkey");
    assert_eq!(SpawnTexture::Texture0.name(), "texture0");
    assert_eq!(SpawnTexture::Texture1.name(), "texture1");
    let any = random_spawn();
    assert!(matches!(any.model, SpawnModel::Torus | SpawnModel::Monkey));
}

#[test]
fn asset_paths() {
    assert_eq!(model_path("torus"), "res/models/torus.obj");
    assert_eq!(texture_path("texture0"), "res/textures/texture0.png");
}

#[test]
fn texture_registry_loads_once() {
    let mut textures: TextureRegistry<u32> = TextureRegistry::new();
    match textures.get_or_load("texture1") {
        Fetch::Load(path) => assert_eq!(path, "res/textures/texture1.png"),
        Fetch::Cached(_) => panic!("nothing was loaded yet"),
    }
    textures.insert("texture1", Arc::new(17));
    textures.insert("texture0", Arc::new(3));
    match textures.get_or_load("texture1") {
        Fetch::Cached(t) => assert_eq!(*t, 17),
        Fetch::Load(_) => panic!("texture1 was loaded"),
    }
    textures.insert("texture1", Arc::new(18));
    match textures.get_or_load("texture1") {
        Fetch::Cached(t) => assert_eq!(*t, 18),
        Fetch::Load(_) => panic!("texture1 was loaded"),
    }
}

#[test]
fn input_layer_movement() {
    let mut layer = InputLayer::new();
    layer.handle_key_input(Key::S, true);
    layer.handle_key_input(Key::D, true);
    assert_eq!(layer.state().movement(), Movement { forward: -1, side: 1, vertical: 0 });
}
