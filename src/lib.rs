//! Scene batching, material bookkeeping, frame lifecycle and layer dispatch
//! for a layered real-time renderer. Device objects are carried as opaque
//! values supplied by a [`backend::Backend`]; everything that decides what
//! to draw, in which order and when, lives here.

pub mod backend;
pub mod error;
pub mod resource;
pub mod world;
pub mod render;
pub mod event;
pub mod layer;
