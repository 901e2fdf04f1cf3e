//! Flags and options of the render loop.
use vstd::prelude::*;

verus! {

/// Options of the render loop.
#[derive(Clone, Copy, Debug, PartialEq, Eq, Structural)]
pub struct RenderOptions {
    /// Time between frames in milliseconds.
    pub frame_interval_ms: u64,
    /// Render twice per frame to expose impure components.
    pub strict_mode: bool,
}

impl Default for RenderOptions {
    fn default() -> (r: Self)
        ensures
            r.frame_interval_ms == 16,
            !r.strict_mode,
    {
        RenderOptions { frame_interval_ms: 16, strict_mode: false }
    }
}

/// Whether the loop should stop, and whether components are rendering.
#[derive(Clone, Copy, Debug, PartialEq, Eq, Structural)]
pub struct RuntimeFlags {
    pub exit_requested: bool,
    pub in_render_phase: bool,
}

impl RuntimeFlags {
    /// Both flags clear.
    pub fn new() -> (f: Self)
        ensures
            !f.exit_requested,
            !f.in_render_phase,
    {
        RuntimeFlags { exit_requested: false, in_render_phase: false }
    }
}

/// Ask the render loop to stop after the current frame.
pub fn request_exit(flags: &mut RuntimeFlags)
    ensures
        final(flags).exit_requested,
        final(flags).in_render_phase == old(flags).in_render_phase,
{
    flags.exit_requested = true;
}

/// Whether the loop was asked to stop.
pub fn should_exit(flags: &RuntimeFlags) -> (r: bool)
    ensures
        r == flags.exit_requested,
{
    flags.exit_requested
}

/// Withdraw a stop request.
pub fn reset_exit(flags: &mut RuntimeFlags)
    ensures
        !final(flags).exit_requested,
        final(flags).in_render_phase == old(flags).in_render_phase,
{
    flags.exit_requested = false;
}

/// Whether components are rendering now.
pub fn is_in_render_phase(flags: &RuntimeFlags) -> (r: bool)
    ensures
        r == flags.in_render_phase,
{
    flags.in_render_phase
}

/// Enter or leave the render phase.
pub fn set_render_phase(flags: &mut RuntimeFlags, in_render: bool)
    ensures
        final(flags).in_render_phase == in_render,
        final(flags).exit_requested == old(flags).exit_requested,
{
    flags.in_render_phase = in_render;
}

/// Whether running the effect named `effect_name` now deserves a warning:
/// effects must not run while components render.
pub fn warn_if_effect_during_render(flags: &RuntimeFlags, effect_name: &str) -> (r: bool)
    ensures
        r == flags.in_render_phase,
{
    flags.in_render_phase
}

} // verus!
