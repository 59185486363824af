//! Sokoban on a tiny entity store: components, level maps, input and draw order.

pub mod components;
pub mod input;
pub mod map;
pub mod render;
pub mod text;
pub mod world;
