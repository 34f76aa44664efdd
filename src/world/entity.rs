use vstd::prelude::*;

use std::sync::Arc;

use crate::backend::Backend;
use crate::error::Error;
use crate::resource::material::MaterialTemplateId;
use crate::resource::model::{Model, ModelData};

verus! {

/// A drawable object: a device-resident model together with the per-object
/// resources (transform buffer, its descriptor set, material instance).
pub struct MeshObject<G: Backend> {
    model: Arc<Model<G>>,
    resources: G::ObjectResources,
}

impl<G: Backend> MeshObject<G> {
    #[verifier::type_invariant]
    spec fn resident(self) -> bool {
        self.model.is_resident()
    }

    pub closed spec fn spec_model(&self) -> Model<G> {
        *self.model
    }

    pub closed spec fn spec_resources(&self) -> G::ObjectResources {
        self.resources
    }

    /// The mesh object made of `model` and `resources`.
    pub closed spec fn spec_new(model: Model<G>, resources: G::ObjectResources) -> Self {
        MeshObject { model: Arc::new(model), resources }
    }

    /// The template identity this object is drawn with.
    pub open spec fn template_key(&self) -> MaterialTemplateId {
        self.spec_model().material_template
    }

    /// Pairs `model` with its object resources. The model has to be resident
    /// on the device.
    pub fn new(model: Arc<Model<G>>, resources: G::ObjectResources) -> (r: Result<Self, Error>)
        ensures
            model.is_resident() ==> (r matches Ok(m) && m.spec_model() == *model
                && m.spec_resources() == resources),
            !model.is_resident() ==> r == Err::<Self, Error>(Error::NotLoaded),
    {
        if model.is_loaded() {
            Ok(MeshObject { model, resources })
        } else {
            Err(Error::NotLoaded)
        }
    }

    pub fn model(&self) -> (r: &Arc<Model<G>>)
        ensures
            **r == self.spec_model(),
            r.is_resident(),
    {
        proof {
            use_type_invariant(self);
        }
        &self.model
    }

    pub fn resources(&self) -> (r: &G::ObjectResources)
        ensures
            *r == self.spec_resources(),
    {
        &self.resources
    }

    pub fn model_material_template_id(&self) -> (r: MaterialTemplateId)
        ensures
            r == self.template_key(),
    {
        self.model.material_template_id()
    }

    /// How many vertices one draw of this object covers.
    pub fn vertex_count(&self) -> (r: u32)
        ensures
            r == self.spec_model().spec_vertex_count(),
    {
        self.model.vertex_count()
    }
}

/// What a deferred entity needs to become drawable: its model, still on the
/// host, and the parameters of its material instance.
pub struct MeshParameters<G: Backend> {
    pub material_create_info: G::MaterialParams,
    pub model: Model<G>,
}

/// Whether an entity is drawable yet.
pub enum MeshState<G: Backend> {
    /// Waiting for its mesh to be made from these parameters.
    Pending(MeshParameters<G>),
    /// Carrying its mesh.
    Ready(MeshObject<G>),
}

/// A positioned object in the world. It either carries a mesh and can be
/// drawn, or waits with the parameters its mesh will be made from.
pub struct Entity<G: Backend> {
    position: G::Position,
    state: MeshState<G>,
}

impl<G: Backend> Entity<G> {
    pub closed spec fn spec_position(&self) -> G::Position {
        self.position
    }

    pub closed spec fn spec_state(&self) -> MeshState<G> {
        self.state
    }

    /// An entity is drawable exactly when it carries a mesh.
    pub open spec fn is_drawable(&self) -> bool {
        self.spec_state() is Ready
    }

    pub open spec fn spec_mesh(&self) -> MeshObject<G> {
        self.spec_state()->Ready_0
    }

    /// The template identity a drawable entity is grouped under.
    pub open spec fn template_key(&self) -> MaterialTemplateId {
        self.spec_mesh().template_key()
    }

    /// The model a deferred entity waits to upload.
    pub open spec fn pending_model(&self) -> Model<G> {
        self.spec_state()->Pending_0.model
    }

    /// The drawable entity a deferred one becomes once its model was
    /// uploaded into `buffer` and its object resources were made.
    pub closed spec fn spec_instantiated(
        self,
        buffer: G::VertexBuffer,
        vertex_count: u32,
        resources: G::ObjectResources,
    ) -> Self {
        Entity {
            position: self.position,
            state: MeshState::Ready(
                MeshObject::<G>::spec_new(
                    Model::<G> {
                        data: ModelData::Device { buffer, vertex_count },
                        material_template: self.pending_model().material_template,
                    },
                    resources,
                ),
            ),
        }
    }

    pub proof fn lemma_instantiated(
        self,
        buffer: G::VertexBuffer,
        vertex_count: u32,
        resources: G::ObjectResources,
    )
        ensures
            self.spec_instantiated(buffer, vertex_count, resources).is_drawable(),
            self.spec_instantiated(buffer, vertex_count, resources).template_key()
                == self.pending_model().material_template,
            self.spec_instantiated(buffer, vertex_count, resources).spec_position()
                == self.spec_position(),
    {
    }

    pub fn new_with_mesh(position: G::Position, mesh: MeshObject<G>) -> (r: Self)
        ensures
            r.spec_position() == position,
            r.spec_state() == MeshState::Ready(mesh),
    {
        Entity { position, state: MeshState::Ready(mesh) }
    }

    pub fn new_dynamic(position: G::Position, params: MeshParameters<G>) -> (r: Self)
        ensures
            r.spec_position() == position,
            r.spec_state() == MeshState::Pending(params),
    {
        Entity { position, state: MeshState::Pending(params) }
    }

    pub fn position(&self) -> (r: &G::Position)
        ensures
            *r == self.spec_position(),
    {
        &self.position
    }

    pub fn mesh(&self) -> (r: Option<&MeshObject<G>>)
        ensures
            self.is_drawable() ==> r == Some(&self.spec_mesh()),
            !self.is_drawable() ==> r is None,
    {
        match &self.state {
            MeshState::Ready(m) => Some(m),
            MeshState::Pending(_) => None,
        }
    }

    /// The parameters a deferred entity waits with.
    pub fn mesh_parameters(&self) -> (r: Option<&MeshParameters<G>>)
        ensures
            self.spec_state() matches MeshState::Pending(p) ==> r == Some(&p),
            self.is_drawable() ==> r is None,
    {
        match &self.state {
            MeshState::Pending(p) => Some(p),
            MeshState::Ready(_) => None,
        }
    }

    pub fn is_pending(&self) -> (r: bool)
        ensures
            r == !self.is_drawable(),
    {
        match &self.state {
            MeshState::Pending(_) => true,
            MeshState::Ready(_) => false,
        }
    }

    /// Turns a deferred entity into a drawable one: its model becomes
    /// resident with the uploaded `buffer`, and the mesh pairs that model with
    /// `resources`. A model that was resident already is not loaded twice:
    /// the entity is handed back unchanged with `AlreadyLoaded`.
    pub fn instantiate(
        self,
        buffer: G::VertexBuffer,
        vertex_count: u32,
        resources: G::ObjectResources,
    ) -> (r: Result<Self, (Self, Error)>)
        requires
            !self.is_drawable(),
        ensures
            self.pending_model().is_resident() ==> r == Err::<Self, (Self, Error)>(
                (self, Error::AlreadyLoaded),
            ),
            !self.pending_model().is_resident() ==> r == Ok::<Self, (Self, Error)>(
                self.spec_instantiated(buffer, vertex_count, resources),
            ),
    {
        let Entity { position, state } = self;
        match state {
            MeshState::Pending(params) => {
                let MeshParameters { material_create_info, model } = params;
                let mut model = model;
                match model.load(buffer, vertex_count) {
                    Ok(()) => {
                        let mesh = MeshObject { model: Arc::new(model), resources };
                        Ok(Entity { position, state: MeshState::Ready(mesh) })
                    },
                    Err(e) => {
                        let params = MeshParameters { material_create_info, model };
                        Err((Entity { position, state: MeshState::Pending(params) }, e))
                    },
                }
            },
            MeshState::Ready(mesh) => Ok(Entity { position, state: MeshState::Ready(mesh) }),
        }
    }
}

} // verus!
