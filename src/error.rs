use vstd::prelude::*;

verus! {

/// Failures that the world model and the resource bookkeeping report.
#[derive(Debug, Clone, Copy, PartialEq, Eq, Structural)]
pub enum Error {
    /// A resource that is already resident on the device was loaded again.
    AlreadyLoaded,
    /// A resource that must be resident on the device is still on the host.
    NotLoaded,
    /// No material template is known under the requested name.
    UnknownMaterial,
    /// No physical device can draw to the surface.
    NoPhysicalDevice,
}

} // verus!
