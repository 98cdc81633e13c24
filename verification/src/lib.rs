pub mod food;
pub mod game;
pub mod geometry;
pub mod hud;
pub mod render;
pub mod snake;
