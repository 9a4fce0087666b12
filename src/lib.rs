//! A small two-dimensional world of bouncing shapes, rendered into an RGBA
//! frame buffer once per frame.

pub mod cli;
pub mod color;
pub mod config;
pub mod constants;
pub mod entity;
pub mod save;
pub mod world;
