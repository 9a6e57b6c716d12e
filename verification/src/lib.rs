pub mod platform_types;
pub mod models;
pub mod game;
pub mod memories;
pub mod gfx;
pub mod render;
pub mod english;
pub mod common;
