use vstd::prelude::*;

use crate::backend::Backend;
use crate::error::Error;
use crate::resource::cache::{AssetCache, Fetch};
use crate::resource::material::MaterialTemplateId;

use std::sync::Arc;

verus! {

/// Where a model's vertex data lives.
pub enum ModelData<G: Backend> {
    /// Not yet uploaded: the file the vertices are read from.
    Host { path: String },
    /// Uploaded: the immutable vertex buffer and how many vertices it holds.
    Device { buffer: G::VertexBuffer, vertex_count: u32 },
}

/// Vertex data authored against one material template. The move from host to
/// device happens once and cannot be undone.
pub struct Model<G: Backend> {
    pub data: ModelData<G>,
    pub material_template: MaterialTemplateId,
}

impl<G: Backend> Model<G> {
    pub open spec fn is_resident(&self) -> bool {
        self.data is Device
    }

    pub open spec fn spec_vertex_count(&self) -> u32 {
        match self.data {
            ModelData::Device { vertex_count, .. } => vertex_count,
            ModelData::Host { .. } => 0,
        }
    }

    /// A model whose vertices still have to be read from `path`.
    pub fn new_host(path: String, material_template: MaterialTemplateId) -> (r: Self)
        ensures
            r.data == (ModelData::<G>::Host { path }),
            r.material_template == material_template,
    {
        Model { data: ModelData::Host { path }, material_template }
    }

    /// A model whose vertices were uploaded into `buffer`.
    pub fn new_resident(
        buffer: G::VertexBuffer,
        vertex_count: u32,
        material_template: MaterialTemplateId,
    ) -> (r: Self)
        ensures
            r.data == (ModelData::<G>::Device { buffer, vertex_count }),
            r.material_template == material_template,
    {
        Model { data: ModelData::Device { buffer, vertex_count }, material_template }
    }

    /// Makes the model device-resident with the uploaded `buffer`. A model
    /// that is resident already keeps its buffer and reports `AlreadyLoaded`.
    pub fn load(&mut self, buffer: G::VertexBuffer, vertex_count: u32) -> (r: Result<(), Error>)
        ensures
            old(self).is_resident() ==> r == Err::<(), Error>(Error::AlreadyLoaded),
            old(self).is_resident() ==> *final(self) == *old(self),
            !old(self).is_resident() ==> r is Ok,
            !old(self).is_resident() ==> final(self).data == (ModelData::<G>::Device {
                buffer,
                vertex_count,
            }),
            final(self).material_template == old(self).material_template,
    {
        match self.data {
            ModelData::Device { .. } => Err(Error::AlreadyLoaded),
            ModelData::Host { .. } => {
                self.data = ModelData::Device { buffer, vertex_count };
                Ok(())
            },
        }
    }

    pub fn is_loaded(&self) -> (r: bool)
        ensures
            r == self.is_resident(),
    {
        match self.data {
            ModelData::Device { .. } => true,
            ModelData::Host { .. } => false,
        }
    }

    /// The file to upload from, while the model is still on the host.
    pub fn host_path(&self) -> (r: Option<&String>)
        ensures
            match self.data {
                ModelData::Host { path } => r == Some(&path),
                ModelData::Device { .. } => r is None,
            },
    {
        match &self.data {
            ModelData::Host { path } => Some(path),
            ModelData::Device { .. } => None,
        }
    }

    /// The vertex buffer, once the model is resident.
    pub fn data(&self) -> (r: Option<&G::VertexBuffer>)
        ensures
            match self.data {
                ModelData::Device { buffer, .. } => r == Some(&buffer),
                ModelData::Host { .. } => r is None,
            },
    {
        match &self.data {
            ModelData::Device { buffer, .. } => Some(buffer),
            ModelData::Host { .. } => None,
        }
    }

    pub fn vertex_count(&self) -> (r: u32)
        ensures
            r == self.spec_vertex_count(),
    {
        match &self.data {
            ModelData::Device { vertex_count, .. } => *vertex_count,
            ModelData::Host { .. } => 0,
        }
    }

    pub fn material_template_id(&self) -> (r: MaterialTemplateId)
        ensures
            r == self.material_template,
    {
        self.material_template
    }
}

/// The file a model named `name` is read from.
pub open spec fn spec_model_path(name: Seq<char>) -> Seq<char> {
    seq!['r', 'e', 's', '/', 'm', 'o', 'd', 'e', 'l', 's', '/'] + name + seq!['.', 'o', 'b', 'j']
}

/// `res/models/<name>.obj`.
pub fn model_path(name: &str) -> (r: String)
    ensures
        r@ == spec_model_path(name@),
{
    let mut path = "res/models/".to_owned();
    path.append(name);
    path.append(".obj");
    proof {
        reveal_strlit("res/models/");
        reveal_strlit(".obj");
        assert(path@ =~= spec_model_path(name@));
    }
    path
}

/// Models by name, each read from disk and uploaded once.
pub struct ModelRegistry<G: Backend> {
    data: AssetCache<Model<G>>,
}

impl<G: Backend> ModelRegistry<G> {
    /// The model registered under `name`, if any.
    pub open spec fn spec_get(&self, name: Seq<char>) -> Option<Model<G>> {
        self.cache().spec_get(name)
    }

    pub closed spec fn cache(&self) -> AssetCache<Model<G>> {
        self.data
    }

    pub fn new() -> (r: Self)
        ensures
            forall|name: Seq<char>| #[trigger] r.spec_get(name) is None,
    {
        ModelRegistry { data: AssetCache::new() }
    }

    /// The model registered under `name`, or the file to load it from.
    pub fn get_or_load(&self, name: &str) -> (r: Fetch<Model<G>>)
        ensures
            match self.spec_get(name@) {
                Some(m) => r matches Fetch::Cached(a) && *a == m,
                None => r matches Fetch::Load(path) && path@ == spec_model_path(name@),
            },
    {
        match self.data.get(name) {
            Some(model) => Fetch::Cached(model),
            None => Fetch::Load(model_path(name)),
        }
    }

    /// Registers a loaded model under `name`.
    pub fn insert(&mut self, name: &str, model: Arc<Model<G>>)
        ensures
            forall|key: Seq<char>|
                #[trigger] final(self).spec_get(key) == if key == name@ {
                    Some(*model)
                } else {
                    old(self).spec_get(key)
                },
    {
        self.data.insert(name, model);
    }
}

} // verus!
