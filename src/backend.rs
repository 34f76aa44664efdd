use vstd::prelude::*;

verus! {

/// The types a rendering backend attaches to the world model.
///
/// None of them is inspected by this crate: they are carried from where the
/// backend creates them to where the backend consumes them again. They are
/// shared with the worker threads that record draw commands in parallel.
pub trait Backend {
    /// Where an entity stands in the world.
    type Position: Send + Sync;
    /// A device-resident, immutable vertex buffer.
    type VertexBuffer: Send + Sync;
    /// Per-object device resources: the transform buffer, the descriptor set
    /// that binds it, and the object's material instance.
    type ObjectResources: Send + Sync;
    /// The parameters from which a material instance is created.
    type MaterialParams: Send + Sync;
}

} // verus!
