pub mod plan;
pub mod shape;
pub mod vec2;
