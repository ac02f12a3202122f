//! The decisions of a small bare-metal compositor that paints a greeting and a
//! crosshair cursor on every connected display.
//!
//! Devices, renderers and fonts live outside; this crate holds what is decided
//! about them and what is painted.

pub mod compositor;
pub mod connector_laws;
pub mod connectors;
pub mod crosshair;
pub mod face;
pub mod font;
pub mod layout;
pub mod painting;
pub mod pixels;
pub mod startup;
pub mod text;
