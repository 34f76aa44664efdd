pub mod entity;
pub mod scene;
