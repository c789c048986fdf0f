//! Text-mode display: a fixed grid of coloured character cells and the
//! pipeline that turns it into an RGBA8 framebuffer.

pub mod display;
