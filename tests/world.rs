use std::sync::Arc;

use libproper::backend::Backend;
use libproper::error::Error;
use libproper::resource::material::{Lookup, MaterialKind, MaterialRegistry, MaterialTemplateId};
use libproper::resource::model::{Model, ModelData};
use libproper::world::entity::{Entity, MeshObject, MeshParameters};
use libproper::world::scene::{Scene, Upload};

struct TestBackend;

impl Backend for TestBackend {
    type Position = (i32, i32, i32);
    type VertexBuffer = u32;
    type ObjectResources = u32;
    type MaterialParams = &'static str;
}

fn resident(buffer: u32, vertices: u32, template: MaterialTemplateId) -> Arc<Model<TestBackend>> {
    Arc::new(Model::new_resident(buffer, vertices, template))
}

fn drawable(x: i32, template: MaterialTemplateId) -> Entity<TestBackend> {
    let mesh = MeshObject::new(resident(x as u32, 36, template), x as u32).unwrap();
    Entity::new_with_mesh((x, 0, 0), mesh)
}

fn pending(x: i32, template: MaterialTemplateId) -> Entity<TestBackend> {
    let model = Model::new_host("res/models/torus.obj".to_string(), template);
    Entity::new_dynamic(
        (x, 0, 0),
        MeshParameters { material_create_info: "diffuse", model },
    )
}

fn group_sizes(scene: &Scene<TestBackend>) -> Vec<(usize, usize)> {
    scene
        .groups_vec()
        .iter()
        .map(|g| (g.material_template_id().0, g.len()))
        .collect()
}

#[test]
fn scene_groups_by_template_end_to_end() {
    let mut registry: MaterialRegistry<()> = MaterialRegistry::new();
    let simple = registry.add("simple", ());
    let textured = registry.add("textured", ());
    let mut scene: Scene<TestBackend> = Scene::new();
    for i in 0..25 {
        scene.add(drawable(i, simple));
    }
    assert_eq!(scene.group_count(), 1);
    assert_eq!(group_sizes(&scene), vec![(simple.0, 25)]);
    scene.add(drawable(100, textured));
    assert_eq!(scene.group_count(), 2);
    assert_eq!(group_sizes(&scene), vec![(simple.0, 25), (textured.0, 1)]);
}

#[test]
fn added_entity_sits_only_in_its_templates_group() {
    let a = MaterialTemplateId(0);
    let b = MaterialTemplateId(1);
    let mut scene: Scene<TestBackend> = Scene::new();
    scene.add(drawable(1, a));
    scene.add(drawable(2, b));
    scene.add(drawable(3, a));
    let groups = scene.groups_vec();
    for group in groups.iter() {
        for e in group.entities().iter() {
            assert_eq!(e.mesh().unwrap().model_material_template_id(), group.material_template_id());
        }
    }
    let holding_three: Vec<_> = groups
        .iter()
        .filter(|g| g.entities().iter().any(|e| e.position().0 == 3))
        .collect();
    assert_eq!(holding_three.len(), 1);
    assert_eq!(holding_three[0].material_template_id(), a);
    let positions: Vec<i32> = groups[0].entities().iter().map(|e| e.position().0).collect();
    assert_eq!(positions, vec![1, 3]);
}

#[test]
fn group_count_does_not_depend_on_add_order() {
    let ids = [0usize, 1, 2, 1, 0, 2, 2, 0];
    let mut forward: Scene<TestBackend> = Scene::new();
    for (i, id) in ids.iter().enumerate() {
        forward.add(drawable(i as i32, MaterialTemplateId(*id)));
    }
    let mut backward: Scene<TestBackend> = Scene::new();
    for (i, id) in ids.iter().enumerate().rev() {
        backward.add(drawable(i as i32, MaterialTemplateId(*id)));
    }
    assert_eq!(forward.group_count(), 3);
    assert_eq!(backward.group_count(), 3);
    let first_seen: Vec<usize> = backward.groups_vec().iter().map(|g| g.material_template_id().0).collect();
    assert_eq!(first_seen, vec![0, 2, 1]);
}

#[test]
fn pending_entity_goes_to_loading_list() {
    let mut scene: Scene<TestBackend> = Scene::new();
    scene.add(pending(7, MaterialTemplateId(0)));
    scene.add(pending(8, MaterialTemplateId(0)));
    assert_eq!(scene.group_count(), 0);
    assert_eq!(scene.loading_list().len(), 2);
    let last = scene.pop_loading().unwrap();
    assert_eq!(last.position().0, 8);
    assert!(last.is_pending());
    assert_eq!(scene.loading_list().len(), 1);
}

#[test]
fn instantiate_models_drains_loading_list() {
    let template = MaterialTemplateId(4);
    let mut scene: Scene<TestBackend> = Scene::new();
    scene.add(pending(1, template));
    scene.add(pending(2, template));
    let uploads = vec![
        Upload { buffer: 9, vertex_count: 24, resources: 5 },
        Upload { buffer: 10, vertex_count: 30, resources: 6 },
    ];
    assert_eq!(scene.instantiate_models(uploads), Ok(()));
    assert!(scene.loading_list().is_empty());
    assert_eq!(group_sizes(&scene), vec![(4, 2)]);
    let entities = scene.groups_vec()[0].entities();
    let positions: Vec<i32> = entities.iter().map(|e| e.position().0).collect();
    assert_eq!(positions, vec![2, 1]);
    assert_eq!(entities[0].mesh().unwrap().vertex_count(), 30);
    assert_eq!(*entities[1].mesh().unwrap().resources(), 5);
}

#[test]
fn instantiate_models_stops_at_resident_model() {
    let template = MaterialTemplateId(0);
    let mut scene: Scene<TestBackend> = Scene::new();
    scene.add(pending(1, template));
    let resident_model = Model::new_resident(77, 3, template);
    scene.add(Entity::new_dynamic((2, 0, 0), MeshParameters { material_create_info: "x", model: resident_model }));
    scene.add(pending(3, template));
    let uploads = vec![
        Upload { buffer: 1, vertex_count: 1, resources: 1 },
        Upload { buffer: 2, vertex_count: 2, resources: 2 },
        Upload { buffer: 3, vertex_count: 3, resources: 3 },
    ];
    assert_eq!(scene.instantiate_models(uploads), Err(Error::AlreadyLoaded));
    let waiting: Vec<i32> = scene.loading_list().iter().map(|e| e.position().0).collect();
    assert_eq!(waiting, vec![1, 2]);
    assert!(scene.loading_list()[1].is_pending());
    assert_eq!(group_sizes(&scene), vec![(0, 1)]);
    assert_eq!(scene.groups_vec()[0].entities()[0].position().0, 3);
}

#[test]
fn instantiate_uploads_the_pending_model() {
    let entity = pending(3, MaterialTemplateId(2));
    assert!(entity.mesh().is_none());
    assert!(entity.mesh_parameters().is_some());
    let ready = entity.instantiate(11, 99, 6).ok().unwrap();
    assert!(!ready.is_pending());
    assert!(ready.mesh_parameters().is_none());
    let mesh = ready.mesh().unwrap();
    assert_eq!(mesh.vertex_count(), 99);
    assert_eq!(*mesh.resources(), 6);
    assert_eq!(mesh.model().data(), Some(&11));
    assert_eq!(mesh.model_material_template_id(), MaterialTemplateId(2));
    assert_eq!(*ready.position(), (3, 0, 0));
}

#[test]
fn instantiate_refuses_a_resident_model() {
    let model = Model::new_resident(1, 3, MaterialTemplateId(0));
    let entity: Entity<TestBackend> =
        Entity::new_dynamic((0, 0, 0), MeshParameters { material_create_info: "x", model });
    match entity.instantiate(2, 6, 0) {
        Err((back, e)) => {
            assert_eq!(e, Error::AlreadyLoaded);
            assert!(back.is_pending());
            assert_eq!(back.mesh_parameters().unwrap().model.data(), Some(&1));
        }
        Ok(_) => panic!("a resident model was loaded twice"),
    }
}

#[test]
fn model_load_moves_host_model_to_device() {
    let mut model: Model<TestBackend> = Model::new_host("res/models/monkey.obj".to_string(), MaterialTemplateId(0));
    assert!(!model.is_loaded());
    assert_eq!(model.host_path().map(|p| p.as_str()), Some("res/models/monkey.obj"));
    assert_eq!(model.data(), None);
    assert_eq!(model.load(42, 300), Ok(()));
    assert!(model.is_loaded());
    assert_eq!(model.data(), Some(&42));
    assert_eq!(model.vertex_count(), 300);
    assert_eq!(model.host_path(), None);
}

#[test]
fn model_load_twice_is_already_loaded() {
    let mut model: Model<TestBackend> = Model::new_host("m.obj".to_string(), MaterialTemplateId(3));
    model.load(42, 300).unwrap();
    assert_eq!(model.load(7, 1), Err(Error::AlreadyLoaded));
    assert_eq!(model.data(), Some(&42));
    assert_eq!(model.vertex_count(), 300);
    assert_eq!(model.material_template_id(), MaterialTemplateId(3));
    assert!(matches!(model.data, ModelData::Device { buffer: 42, vertex_count: 300 }));
}

#[test]
fn mesh_object_needs_a_resident_model() {
    let host: Arc<Model<TestBackend>> = Arc::new(Model::new_host("a.obj".to_string(), MaterialTemplateId(0)));
    assert!(matches!(MeshObject::new(host, 1), Err(Error::NotLoaded)));
    let mesh = MeshObject::<TestBackend>::new(resident(5, 12, MaterialTemplateId(1)), 2).ok().unwrap();
    assert_eq!(mesh.vertex_count(), 12);
}

#[test]
fn material_registry_binds_names_to_slots() {
    let mut registry: MaterialRegistry<&'static str> = MaterialRegistry::new();
    assert_eq!(registry.get_id("simple"), None);
    assert_eq!(registry.lookup("simple"), Ok(Lookup::Load(MaterialKind::Simple)));
    assert_eq!(registry.lookup("glass"), Err(Error::UnknownMaterial));
    let id = registry.add("simple", "first");
    assert_eq!(id, MaterialTemplateId(0));
    assert_eq!(registry.get_id("simple"), Some(id));
    assert_eq!(registry.lookup("simple"), Ok(Lookup::Found(id)));
    assert_eq!(*registry.get(id), "first");
    let again = registry.add("simple", "second");
    assert_eq!(again, MaterialTemplateId(1));
    assert_eq!(registry.get_id("simple"), Some(again));
    assert_eq!(registry.len(), 2);
    *registry.get_mut(id) = "rebuilt";
    assert_eq!(*registry.get(id), "rebuilt");
    assert_eq!(*registry.get(again), "second");
}

#[test]
fn material_kind_by_name() {
    assert_eq!(libproper::resource::material::material_kind("simple"), Some(MaterialKind::Simple));
    assert_eq!(libproper::resource::material::material_kind("Simple"), None);
    assert_eq!(libproper::resource::material::material_kind(""), None);
}

#[test]
fn add_places_entity_once() {
    let mut scene: Scene<TestBackend> = Scene::new();
    scene.add(drawable(1, MaterialTemplateId(0)));
    scene.add(pending(2, MaterialTemplateId(0)));
    let before: usize = scene.groups_vec().iter().map(|g| g.len()).sum();
    scene.add(drawable(3, MaterialTemplateId(1)));
    let after: usize = scene.groups_vec().iter().map(|g| g.len()).sum();
    assert_eq!(after, before + 1);
    let occurrences = scene
        .groups_vec()
        .iter()
        .flat_map(|g| g.entities().iter())
        .filter(|e| e.position().0 == 3)
        .count();
    assert_eq!(occurrences, 1);
    assert!(scene.loading_list().iter().all(|e| e.position().0 != 3));
    assert_eq!(scene.loading_list().len(), 1);
}

#[test]
fn permuted_adds_give_same_groups() {
    let ids = [2usize, 0, 1, 0, 2, 2, 1];
    let mut a: Scene<TestBackend> = Scene::new();
    for (i, id) in ids.iter().enumerate() {
        a.add(drawable(i as i32, MaterialTemplateId(*id)));
    }
    let order = [6usize, 3, 0, 5, 1, 4, 2];
    let mut b: Scene<TestBackend> = Scene::new();
    for &i in order.iter() {
        b.add(drawable(i as i32, MaterialTemplateId(ids[i])));
    }
    let members = |s: &Scene<TestBackend>| {
        let mut v: Vec<(usize, Vec<i32>)> = s
            .groups_vec()
            .iter()
            .map(|g| {
                let mut xs: Vec<i32> = g.entities().iter().map(|e| e.position().0).collect();
                xs.sort();
                (g.material_template_id().0, xs)
            })
            .collect();
        v.sort();
        v
    };
    assert_eq!(members(&a), members(&b));
    assert_eq!(members(&a), vec![(0, vec![1, 3]), (1, vec![2, 6]), (2, vec![0, 4, 5])]);
}
