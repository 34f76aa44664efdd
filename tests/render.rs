use std::sync::Arc;

use libproper::backend::Backend;
use libproper::error::Error;
use libproper::event::{GameEvent, WindowEventKind, WindowRoute, MainLoop};
use libproper::layer::{EventDispatch, LayerManager};
use libproper::render::context::{device_rank, select_physical_device, DeviceType};
use libproper::render::forward::{chunk_ranges, record_command_buffer_part, record_secondary_buffers, EntityDraw};
use libproper::render::frame::{FrameAction, FrameLifecycle};
use libproper::resource::material::MaterialTemplateId;
use libproper::resource::model::Model;
use libproper::world::entity::{Entity, MeshObject};
use libproper::world::scene::Scene;

struct TestBackend;

impl Backend for TestBackend {
    type Position = u32;
    type VertexBuffer = u32;
    type ObjectResources = u32;
    type MaterialParams = ();
}

fn drawable(x: u32, vertices: u32, template: usize) -> Entity<TestBackend> {
    let model = Arc::new(Model::new_resident(x, vertices, MaterialTemplateId(template)));
    Entity::new_with_mesh(x, MeshObject::new(model, x).unwrap())
}

#[test]
fn chunk_ranges_small_group_is_one_range() {
    assert_eq!(chunk_ranges(0), vec![(0, 0)]);
    assert_eq!(chunk_ranges(5), vec![(0, 5)]);
    assert_eq!(chunk_ranges(12), vec![(0, 12)]);
}

#[test]
fn chunk_ranges_large_group_splits_evenly() {
    let r = chunk_ranges(13);
    assert_eq!(r.len(), 13);
    assert_eq!(r[12], (12, 13));
    let r = chunk_ranges(25);
    assert_eq!(r.len(), 13);
    assert_eq!(r[0], (0, 2));
    assert_eq!(r[11], (22, 24));
    assert_eq!(r[12], (24, 25));
    let r = chunk_ranges(24);
    assert_eq!(r.len(), 12);
    assert!(r.iter().all(|(s, e)| e - s == 2));
    let r = chunk_ranges(100);
    assert_eq!(r.len(), 13);
    assert_eq!(r[11], (88, 96));
    assert_eq!(r[12], (96, 100));
    let r = chunk_ranges(107);
    assert_eq!(r.len(), 14);
    assert_eq!(r[13], (104, 107));
}

#[test]
fn chunked_recording_draws_each_entity_once() {
    let mut scene: Scene<TestBackend> = Scene::new();
    for i in 0..30 {
        scene.add(drawable(i, 3 * i, 0));
    }
    let recordings = record_secondary_buffers(&scene);
    assert_eq!(recordings.len(), 15);
    let mut drawn: Vec<usize> = recordings.iter().flat_map(|r| r.draws.iter().map(|d| d.entity)).collect();
    assert_eq!(drawn.len(), 30);
    drawn.sort();
    drawn.dedup();
    assert_eq!(drawn, (0..30).collect::<Vec<usize>>());
    for r in recordings.iter() {
        assert_eq!(r.group, 0);
        assert_eq!(r.template, MaterialTemplateId(0));
        for d in r.draws.iter() {
            assert_eq!(d.vertex_count, 3 * d.entity as u32);
        }
    }
}

#[test]
fn recording_follows_group_order() {
    let mut scene: Scene<TestBackend> = Scene::new();
    for i in 0..25 {
        scene.add(drawable(i, 36, 1));
    }
    scene.add(drawable(99, 6, 0));
    scene.add(drawable(98, 9, 1));
    let recordings = record_secondary_buffers(&scene);
    assert_eq!(recordings.len(), 14);
    assert_eq!(recordings[0].draws, vec![EntityDraw { entity: 0, vertex_count: 36 }, EntityDraw { entity: 1, vertex_count: 36 }]);
    assert_eq!(recordings[12].draws.len(), 2);
    assert_eq!(recordings[12].draws[1], EntityDraw { entity: 25, vertex_count: 9 });
    assert_eq!(recordings[13].group, 1);
    assert_eq!(recordings[13].template, MaterialTemplateId(0));
    assert_eq!(recordings[13].draws, vec![EntityDraw { entity: 0, vertex_count: 6 }]);
}

#[test]
fn record_part_covers_its_range() {
    let mut scene: Scene<TestBackend> = Scene::new();
    for i in 0..5 {
        scene.add(drawable(i, 10 + i, 2));
    }
    let group = &scene.groups_vec()[0];
    let part = record_command_buffer_part(7, group, 1, 4);
    assert_eq!(part.group, 7);
    assert_eq!(part.template, MaterialTemplateId(2));
    let entities: Vec<usize> = part.draws.iter().map(|d| d.entity).collect();
    assert_eq!(entities, vec![1, 2, 3]);
    assert_eq!(part.draws[2].vertex_count, 13);
    assert!(record_command_buffer_part(0, group, 2, 2).draws.is_empty());
}

fn route(layers: usize, consumed: &[bool]) -> Vec<usize> {
    let mut dispatch = EventDispatch::new(layers);
    let mut visited = vec![];
    while let Some(i) = dispatch.next_layer() {
        visited.push(i);
        dispatch.report(consumed[i]);
    }
    visited
}

#[test]
fn event_stops_at_consuming_layer() {
    // A, B, C pushed in that order; B consumes.
    let visited = route(3, &[false, true, false]);
    assert_eq!(visited, vec![2, 1]);
    assert!(!visited.contains(&0));
    assert_eq!(visited.iter().filter(|&&i| i == 2).count(), 1);
}

#[test]
fn event_reaches_every_layer_when_unconsumed() {
    assert_eq!(route(3, &[false, false, false]), vec![2, 1, 0]);
    assert_eq!(route(3, &[true, false, true]), vec![2]);
    assert_eq!(route(0, &[]), Vec::<usize>::new());
}

#[test]
fn layer_manager_keeps_push_order() {
    let mut layers: LayerManager<&'static str> = LayerManager::new();
    layers.push("world");
    layers.push("logic");
    layers.push("input");
    layers.push("gui");
    assert_eq!(layers.len(), 4);
    assert_eq!(*layers.layer(0), "world");
    assert_eq!(*layers.layer(3), "gui");
    *layers.layer_mut(1) = "gameplay";
    assert_eq!(*layers.layer(1), "gameplay");
    assert_eq!(route(layers.len(), &[false, false, false, true]), vec![3]);
}

fn run_frame(frame: &mut FrameLifecycle, layers: usize, suboptimal: bool) -> Vec<FrameAction> {
    let mut actions = vec![frame.begin_frame(layers)];
    loop {
        let last = *actions.last().unwrap();
        let next = frame.advance(last == FrameAction::AcquireImage && suboptimal);
        actions.push(next);
        if next == FrameAction::Finished {
            return actions;
        }
    }
}

#[test]
fn invalidated_frame_notifies_every_layer_once() {
    let mut frame = FrameLifecycle::new();
    frame.invalidate();
    frame.invalidate();
    assert!(frame.needs_recreation());
    let actions = run_frame(&mut frame, 3, false);
    assert_eq!(
        actions,
        vec![
            FrameAction::RecreateSwapchain,
            FrameAction::NotifyInvalidated(0),
            FrameAction::NotifyInvalidated(1),
            FrameAction::NotifyInvalidated(2),
            FrameAction::AcquireImage,
            FrameAction::DrawLayer(0),
            FrameAction::DrawLayer(1),
            FrameAction::DrawLayer(2),
            FrameAction::Present,
            FrameAction::Finished,
        ]
    );
    assert!(frame.is_idle());
    assert!(!frame.needs_recreation());
    let next = run_frame(&mut frame, 3, false);
    assert!(!next.iter().any(|a| matches!(a, FrameAction::NotifyInvalidated(_))));
    assert_eq!(next.len(), 6);
}

#[test]
fn suboptimal_acquire_recreates_next_frame() {
    let mut frame = FrameLifecycle::new();
    let first = run_frame(&mut frame, 1, true);
    assert_eq!(first[0], FrameAction::AcquireImage);
    assert!(frame.needs_recreation());
    let second = run_frame(&mut frame, 1, false);
    assert_eq!(second[0], FrameAction::RecreateSwapchain);
    assert_eq!(second[1], FrameAction::NotifyInvalidated(0));
}

#[test]
fn frame_without_layers() {
    let mut frame = FrameLifecycle::new();
    frame.invalidate();
    assert_eq!(
        run_frame(&mut frame, 0, false),
        vec![FrameAction::RecreateSwapchain, FrameAction::AcquireImage, FrameAction::Present, FrameAction::Finished]
    );
}

#[test]
fn device_selection_prefers_discrete_then_first() {
    let devices = vec![DeviceType::Cpu, DeviceType::IntegratedGpu, DeviceType::DiscreteGpu, DeviceType::DiscreteGpu];
    assert_eq!(select_physical_device(&devices), Ok(2));
    assert_eq!(select_physical_device(&vec![DeviceType::Other, DeviceType::VirtualGpu]), Ok(1));
    assert_eq!(select_physical_device(&vec![]), Err(Error::NoPhysicalDevice));
    assert_eq!(device_rank(DeviceType::Cpu), 3);
    assert_eq!(device_rank(DeviceType::Other), 4);
}

#[test]
fn main_loop_routes_window_events() {
    let mut main = MainLoop::new();
    assert_eq!(main.on_window_event(WindowEventKind::Resized), WindowRoute::Deliver);
    assert!(main.frame_mut().needs_recreation());
    assert_eq!(main.on_window_event(WindowEventKind::CloseRequested), WindowRoute::Exit);
    assert_eq!(main.on_window_event(WindowEventKind::Other), WindowRoute::Ignore);
    assert_eq!(main.on_window_event(WindowEventKind::CursorMoved), WindowRoute::Deliver);
    assert!(!main.on_mouse_motion());
    assert_eq!(main.on_game_event(GameEvent::SetMouseGrab(true)), Some(true));
    assert!(main.is_grabbed());
    assert!(main.on_mouse_motion());
    assert_eq!(main.on_window_event(WindowEventKind::CursorMoved), WindowRoute::Ignore);
    assert_eq!(main.on_window_event(WindowEventKind::KeyboardInput), WindowRoute::Deliver);
    assert_eq!(main.on_game_event(GameEvent::TestEvent), None);
    assert!(main.is_grabbed());
}

#[test]
fn aborted_frame_returns_to_idle_and_recreates() {
    let mut frame = FrameLifecycle::new();
    assert_eq!(frame.begin_frame(2), FrameAction::AcquireImage);
    assert_eq!(frame.advance(false), FrameAction::DrawLayer(0));
    frame.abort_frame();
    assert!(frame.is_idle());
    assert!(frame.needs_recreation());
    assert_eq!(frame.begin_frame(2), FrameAction::RecreateSwapchain);
}
