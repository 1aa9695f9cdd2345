//! Interface state and decisions of the BSE desktop client : the command
//! palette, app metadata, pen swatches, the status-bar connection pill
//! and the visual enums shared with the renderer.

pub mod command_palette;
pub mod info;
pub mod pen_options;
pub mod status_bar;
pub mod theme;
