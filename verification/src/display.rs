//! Xteink X4 display logic: the logical-to-panel mapping, the GRAY2
//! framebuffer, refresh policy and the display state machine.

pub mod buffers;
pub mod engine;
pub mod error;
pub mod events;
pub mod page_source;
pub mod probes;
pub mod profile;
pub mod refresh;
pub mod render_timing;
pub mod stream;
pub mod framebuffer;
pub mod ui_render;
