//! The character grid, its colours and the cell-to-pixel renderer.

pub mod cache;
pub mod error;
pub mod geometry;
pub mod glyph;
pub mod image;
pub mod render;
pub mod video_memory;

use self::video_memory::{blank_grid, VideoMemory};
use vstd::prelude::*;

verus! {

/// Number of columns of the character grid.
pub const DISPLAY_COLUMNS: usize = 90;

/// Number of lines of the character grid.
pub const DISPLAY_LINES: usize = 25;

/// Number of cells of the character grid.
pub const DISPLAY_CELLS: usize = DISPLAY_COLUMNS * DISPLAY_LINES;

/// What is on screen: the grid of cells.
#[derive(Debug, Clone, Copy)]
pub struct Display {
    pub memory: VideoMemory,
}

impl Default for Display {
    fn default() -> (display: Self)
        ensures
            display.memory@ == blank_grid(),
    {
        Display { memory: VideoMemory::default() }
    }
}

/// How the window of a display is to be opened.
#[derive(Debug, Clone, Copy)]
pub struct WindowSettings<'a> {
    pub title: &'a str,
    pub width: usize,
    pub height: usize,
    pub fullscreen: bool,
}

impl<'a> Default for WindowSettings<'a> {
    fn default() -> (settings: Self)
        ensures
            settings.title@ == "XqA terminal"@,
            settings.width == 1280,
            settings.height == 720,
            !settings.fullscreen,
    {
        Self { title: "XqA terminal", width: 1280, height: 720, fullscreen: false }
    }
}

/// A host that opens a window and shows a display in it until it is
/// closed.
pub trait DisplayAdapter {
    /// What the host reports when it cannot go on.
    type Error;

    /// Runs the host until its window is closed.
    fn run(settings: WindowSettings) -> Result<(), Self::Error>;
}

/// Runs the host `T` with `settings` and hands back what it reports.
pub fn start<T>(settings: WindowSettings) -> (result: Result<(), T::Error>) where
    T: DisplayAdapter + Sized,

    ensures
        call_ensures(T::run, (settings,), result),
{
    T::run(settings)
}

} // verus!
