//! Choosing the settings of a swapchain from what a surface offers.

use vstd::prelude::*;

verus! {

/// The code of the preferred pixel format, 8-bit BGRA in sRGB.
pub const FORMAT_B8G8R8A8_SRGB: i32 = 50;

/// The code of the preferred colour space, non-linear sRGB.
pub const COLOR_SPACE_SRGB_NONLINEAR: i32 = 0;

/// The frames that may be in flight at once.
pub const MAX_FRAMES_IN_FLIGHT: usize = 2;

/// A size in pixels.
#[derive(Clone, Copy, Debug, PartialEq, Eq, Structural)]
pub struct Extent {
    pub width: u32,
    pub height: u32,
}

/// A pixel format with its colour space, both by their codes.
#[derive(Clone, Copy, Debug, PartialEq, Eq, Structural)]
pub struct SurfaceFormat {
    pub format: i32,
    pub color_space: i32,
}

/// How finished images reach the screen.
#[derive(Clone, Copy, Debug, PartialEq, Eq, Structural)]
pub enum PresentMode {
    Immediate,
    Mailbox,
    Fifo,
    FifoRelaxed,
}

/// `value` kept between `lo` and `hi`.
pub open spec fn spec_clamp(value: u32, lo: u32, hi: u32) -> u32 {
    if value < lo {
        lo
    } else if value > hi {
        hi
    } else {
        value
    }
}

/// The preferred format: 8-bit BGRA in non-linear sRGB.
pub open spec fn spec_preferred_format() -> SurfaceFormat {
    SurfaceFormat { format: FORMAT_B8G8R8A8_SRGB, color_space: COLOR_SPACE_SRGB_NONLINEAR }
}

/// The extent of the swapchain: the surface's current extent where it has
/// one, else the window's size kept within the surface's limits.
pub open spec fn spec_swap_extent(current: Extent, min: Extent, max: Extent, window: Extent) -> Extent {
    if current.width != u32::MAX {
        current
    } else {
        Extent {
            width: spec_clamp(window.width, min.width, max.width),
            height: spec_clamp(window.height, min.height, max.height),
        }
    }
}

/// The number of images to ask for: one more than the surface's minimum,
/// but no more than its maximum where it has one (a maximum of 0 means none).
pub open spec fn spec_image_count(min_image_count: u32, max_image_count: u32) -> int {
    if max_image_count > 0 && min_image_count + 1 > max_image_count {
        max_image_count as int
    } else {
        min_image_count + 1
    }
}

/// Keeps `value` between `lo` and `hi`.
fn clamp(value: u32, lo: u32, hi: u32) -> (kept: u32)
    requires
        lo <= hi,
    ensures
        kept == spec_clamp(value, lo, hi),
{
    if value < lo {
        lo
    } else if value > hi {
        hi
    } else {
        value
    }
}

/// Chooses the extent of the swapchain. A current width of `u32::MAX` says
/// that the surface leaves the extent to the window.
pub fn choose_swap_extent(current: Extent, min: Extent, max: Extent, window: Extent) -> (extent:
    Extent)
    requires
        current.width == u32::MAX ==> min.width <= max.width && min.height <= max.height,
    ensures
        extent == spec_swap_extent(current, min, max, window),
{
    if current.width != u32::MAX {
        current
    } else {
        Extent {
            width: clamp(window.width, min.width, max.width),
            height: clamp(window.height, min.height, max.height),
        }
    }
}

/// Chooses the number of images of the swapchain. Where the surface has no
/// maximum, its minimum must leave room for one more.
pub fn choose_image_count(min_image_count: u32, max_image_count: u32) -> (count: u32)
    requires
        max_image_count == 0 ==> min_image_count < u32::MAX,
    ensures
        count == spec_image_count(min_image_count, max_image_count),
{
    if max_image_count > 0 && min_image_count >= max_image_count {
        max_image_count
    } else {
        min_image_count + 1
    }
}

/// The frame slot after `current`, round the slots in flight.
pub fn next_frame(current: usize) -> (next: usize)
    requires
        current < MAX_FRAMES_IN_FLIGHT,
    ensures
        next == (current + 1) % (MAX_FRAMES_IN_FLIGHT as int),
        next < MAX_FRAMES_IN_FLIGHT,
{
    (current + 1) % MAX_FRAMES_IN_FLIGHT
}

/// Chooses the surface format: the preferred one where it is offered, else
/// the first that is offered.
pub fn choose_swap_surface_format(available: &[SurfaceFormat]) -> (chosen: SurfaceFormat)
    requires
        available@.len() > 0,
    ensures
        chosen == if available@.contains(spec_preferred_format()) {
            spec_preferred_format()
        } else {
            available@[0]
        },
{
    let mut i: usize = 0;
    while i < available.len()
        invariant
            i <= available@.len(),
            forall|j: int| 0 <= j < i ==> available@[j] != spec_preferred_format(),
        decreases available@.len() - i,
    {
        let f = available[i];
        if f.format == FORMAT_B8G8R8A8_SRGB && f.color_space == COLOR_SPACE_SRGB_NONLINEAR {
            assert(available@[i as int] == spec_preferred_format());
            return f;
        }
        i = i + 1;
    }
    available[0]
}

/// Chooses the presentation mode: mailbox where it is offered, else FIFO.
pub fn choose_swap_present_mode(available: &[PresentMode]) -> (chosen: PresentMode)
    ensures
        chosen == if available@.contains(PresentMode::Mailbox) {
            PresentMode::Mailbox
        } else {
            PresentMode::Fifo
        },
{
    let mut i: usize = 0;
    while i < available.len()
        invariant
            i <= available@.len(),
            forall|j: int| 0 <= j < i ==> available@[j] != PresentMode::Mailbox,
        decreases available@.len() - i,
    {
        match available[i] {
            PresentMode::Mailbox => {
                assert(available@[i as int] == PresentMode::Mailbox);
                return PresentMode::Mailbox;
            },
            _ => {},
        }
        i = i + 1;
    }
    PresentMode::Fifo
}

} // verus!
