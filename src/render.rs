pub mod forward;
pub mod frame;
pub mod context;
