//! Retained-mode UI toolkit core: theme palettes, compose tracking, node builders,
//! draw ordering and text editing, verified with Verus.

pub mod color;
pub mod types;
pub mod easing;
pub mod theme;
pub mod theme_tokens;
pub mod ui;
pub mod components;
pub mod debug;
pub mod pages;
