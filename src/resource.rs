pub mod material;
pub mod model;
pub mod cache;
pub mod texture;
