//! Escape-time fractal rendering: orbit bookkeeping, pixel colours and the
//! rasterizer that fills an RGBA image buffer.
pub mod canvas;
pub mod color;
pub mod escape;
pub mod kind;
pub mod render;

pub use color::{gradient, pixel_color, red};
pub use escape::{Escape, EscapeCounter};
pub use kind::RenderType;
pub use render::{ConfigError, Render, RenderBuilder};
