//! What the application loop exchanges with an application: the
//! continue-or-exit verdict an event handler returns, and the window
//! configuration a run starts from. The loop itself polls events,
//! measures time and sleeps between frames, so it runs in the outer
//! layer.

use vstd::prelude::*;

verus! {

/// An application's verdict after handling an event.
pub enum AppControl {
    Continue,
    Exit,
}

/// Window and pacing configuration a run starts from.
#[derive(Clone, Copy)]
pub struct AppConfig {
    pub width: u32,
    pub height: u32,
    pub title: &'static str,
    pub max_fps: Option<u32>,
}

impl Default for AppConfig {
    /// A 1280 by 720 window, capped at 60 frames per second.
    fn default() -> (r: AppConfig)
        ensures
            r.width == 1280,
            r.height == 720,
            r.title@ == "bun app"@,
            r.max_fps == Some(60u32),
    {
        AppConfig { width: 1280, height: 720, title: "bun app", max_fps: Some(60) }
    }
}

} // verus!
