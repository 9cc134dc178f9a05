//! The camera's discrete state: screen size, the zoom-iteration counter, and
//! the iteration depth derived from it.
//!
//! The camera's continuous state (pan center, zoom factor) is floating point
//! and lives with the engine glue outside this crate. Everything the renderer
//! and the depth rule need — which zoom steps are permitted, and how the
//! iteration budget grows with them — is integer state and is verified here.

use vstd::prelude::*;
use crate::input::Input;

verus! {

/// The iteration depth used when the zoom-iteration counter is zero.
pub const BASE_DEPTH: u32 = 40;

/// How many zoom-in steps buy one extra unit of iteration depth.
pub const THRESHOLD: u32 = 2;

/// The discrete part of the camera: screen geometry and the iteration budget.
#[derive(Clone, Copy)]
pub struct Camera {
    pub screen_width: u32,
    pub screen_height: u32,
    pub max_depth: u32,
    pub depth_inc: u32,
}

/// What one update did about zoom: each flag says whether the engine must
/// apply the matching multiplicative zoom change to its zoom factor.
pub struct ZoomOutcome {
    pub zoom_in_applied: bool,
    pub zoom_out_applied: bool,
}

/// The zoom-iteration counter after one update: a zoom-in step always
/// increments it; a zoom-out step decrements it only when it is positive
/// after the increment, so it never goes below zero.
pub open spec fn counter_after(inc: int, zoom_in: bool, zoom_out: bool) -> int {
    let raised: int = if zoom_in {
        inc + 1
    } else {
        inc
    };
    if zoom_out && raised > 0 {
        raised - 1
    } else {
        raised
    }
}

/// The iteration depth that a counter value buys: the base depth plus one
/// unit for every full threshold of zoom-in steps.
pub open spec fn depth_for(inc: int) -> int {
    BASE_DEPTH + inc / (THRESHOLD as int)
}

impl Camera {
    /// A camera at startup: counter at zero, depth as given by the caller.
    pub fn new(screen_width: u32, screen_height: u32, max_depth: u32) -> (r: Camera)
        ensures
            r.screen_width == screen_width,
            r.screen_height == screen_height,
            r.max_depth == max_depth,
            r.depth_inc == 0,
    {
        Camera { screen_width, screen_height, max_depth, depth_inc: 0 }
    }

    /// One per-frame update of the discrete state. Applies the zoom keys to
    /// the zoom-iteration counter — zoom-out is refused once the counter is
    /// at zero — and recomputes the iteration depth from the counter. The
    /// returned outcome tells the engine which multiplicative zoom changes
    /// to apply to its floating-point zoom factor.
    pub fn update_depth(&mut self, current_input: &Input) -> (r: ZoomOutcome)
        requires
            current_input.zoom_in ==> old(self).depth_inc < u32::MAX,
        ensures
            r.zoom_in_applied == current_input.zoom_in,
            r.zoom_out_applied == (current_input.zoom_out && counter_after(
                old(self).depth_inc as int,
                current_input.zoom_in,
                false,
            ) > 0),
            final(self).depth_inc == counter_after(
                old(self).depth_inc as int,
                current_input.zoom_in,
                current_input.zoom_out,
            ),
            final(self).max_depth == depth_for(final(self).depth_inc as int),
            final(self).screen_width == old(self).screen_width,
            final(self).screen_height == old(self).screen_height,
    {
        let mut zoom_in_applied = false;
        let mut zoom_out_applied = false;
        if current_input.zoom_in {
            self.depth_inc = self.depth_inc + 1;
            zoom_in_applied = true;
        }
        if current_input.zoom_out && self.depth_inc > 0 {
            self.depth_inc = self.depth_inc - 1;
            zoom_out_applied = true;
        }
        self.max_depth = BASE_DEPTH + self.depth_inc / THRESHOLD;
        ZoomOutcome { zoom_in_applied, zoom_out_applied }
    }
}

/// Law: zoom-out from the initial state is a no-op. With the zoom-iteration
/// counter at zero and zoom-in released, an update leaves the counter and the
/// depth unchanged, and permits no zoom-out change — so the engine leaves its
/// zoom factor untouched as well. The three conclusions are exactly what
/// [`Camera::update_depth`] ensures of the new counter, the new depth and the
/// returned `zoom_out_applied` flag.
pub proof fn lemma_zoom_out_noop_at_zero(cam: Camera, current_input: Input)
    requires
        cam.depth_inc == 0,
        cam.max_depth == depth_for(0),
        !current_input.zoom_in,
    ensures
        counter_after(cam.depth_inc as int, current_input.zoom_in, current_input.zoom_out)
            == cam.depth_inc,
        depth_for(
            counter_after(cam.depth_inc as int, current_input.zoom_in, current_input.zoom_out),
        ) == cam.max_depth,
        !(current_input.zoom_out && counter_after(
            cam.depth_inc as int,
            current_input.zoom_in,
            false,
        ) > 0),
{
}

} // verus!
