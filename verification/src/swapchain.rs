//! The shape of the swapchain: what to ask for, given what the surface offers.

use vstd::prelude::*;

verus! {

/// The Vulkan number of 8-bit BGRA with sRGB encoding.
pub const FORMAT_B8G8R8A8_SRGB: i32 = 50;

/// The Vulkan number of the sRGB color space.
pub const COLOR_SPACE_SRGB_NONLINEAR: i32 = 0;

/// The Vulkan number of the present mode that replaces a waiting image.
pub const PRESENT_MODE_MAILBOX: i32 = 1;

/// The Vulkan number of the present mode that queues images.
pub const PRESENT_MODE_FIFO: i32 = 2;

/// The Vulkan bit for images that are drawn to.
pub const IMAGE_USAGE_COLOR_ATTACHMENT: u32 = 0x10;

/// The Vulkan bit for windows that hide what is behind them.
pub const COMPOSITE_ALPHA_OPAQUE: u32 = 0x1;

/// A width and a height in pixels.
#[derive(Clone, Copy, PartialEq, Eq, Debug, Structural)]
pub struct Extent {
    pub width: u32,
    pub height: u32,
}

/// A pixel format and the color space that it is shown in.
#[derive(Clone, Copy, PartialEq, Eq, Debug, Structural)]
pub struct SurfaceFormat {
    pub format: i32,
    pub color_space: i32,
}

/// The limits of a surface.
#[derive(Clone, Copy, PartialEq, Eq, Debug, Structural)]
pub struct SurfaceLimits {
    pub min_image_count: u32,
    /// Zero where the surface has no upper limit.
    pub max_image_count: u32,
    /// Its width is `u32::MAX` where the swapchain decides on the size.
    pub current_extent: Extent,
    pub min_image_extent: Extent,
    pub max_image_extent: Extent,
    pub current_transform: u32,
}

/// What the swapchain is made with.
#[derive(Clone, Copy, PartialEq, Eq, Debug, Structural)]
pub struct SwapchainPlan {
    pub min_image_count: u32,
    pub format: SurfaceFormat,
    pub extent: Extent,
    pub image_array_layers: u32,
    pub image_usage: u32,
    pub pre_transform: u32,
    pub composite_alpha: u32,
    pub present_mode: i32,
    pub clipped: bool,
}

/// The format that is taken where the surface offers it.
pub open spec fn srgb_format() -> SurfaceFormat {
    SurfaceFormat { format: FORMAT_B8G8R8A8_SRGB, color_space: COLOR_SPACE_SRGB_NONLINEAR }
}

/// The sRGB format where it is offered, else the first one.
pub open spec fn chosen_format(formats: Seq<SurfaceFormat>) -> SurfaceFormat {
    if formats.contains(srgb_format()) {
        srgb_format()
    } else {
        formats[0]
    }
}

/// Mailbox where it is offered, else the queue, which every surface has.
pub open spec fn chosen_mode(modes: Seq<i32>) -> i32 {
    if modes.contains(PRESENT_MODE_MAILBOX) {
        PRESENT_MODE_MAILBOX
    } else {
        PRESENT_MODE_FIFO
    }
}

/// `v`, or the nearer end of the range where `v` lies outside.
pub open spec fn clamped(v: u32, lo: u32, hi: u32) -> u32 {
    if v < lo {
        lo
    } else if v > hi {
        hi
    } else {
        v
    }
}

/// Whether the swapchain decides on its own size.
pub open spec fn extent_is_free(limits: SurfaceLimits) -> bool {
    limits.current_extent.width == u32::MAX
}

/// Whether the smallest size is no larger than the largest.
pub open spec fn extents_are_ordered(limits: SurfaceLimits) -> bool {
    &&& limits.min_image_extent.width <= limits.max_image_extent.width
    &&& limits.min_image_extent.height <= limits.max_image_extent.height
}

/// The surface's own size, or the window's size within the limits.
pub open spec fn chosen_extent(limits: SurfaceLimits, width: u32, height: u32) -> Extent {
    if extent_is_free(limits) {
        Extent {
            width: clamped(width, limits.min_image_extent.width, limits.max_image_extent.width),
            height: clamped(height, limits.min_image_extent.height, limits.max_image_extent.height),
        }
    } else {
        limits.current_extent
    }
}

/// One image more than the least, as far as the surface allows it.
pub open spec fn chosen_count(limits: SurfaceLimits) -> int {
    if limits.max_image_count > 0 && limits.min_image_count + 1 > limits.max_image_count {
        limits.max_image_count as int
    } else {
        limits.min_image_count + 1
    }
}

/// The swapchain for a window: what is chosen among the offers, one layer of images to draw
/// to, shown as they are, behind which nothing shows through, and of which only the visible
/// part needs to be drawn.
pub open spec fn plan_of(
    limits: SurfaceLimits,
    formats: Seq<SurfaceFormat>,
    modes: Seq<i32>,
    width: u32,
    height: u32,
) -> SwapchainPlan {
    SwapchainPlan {
        min_image_count: chosen_count(limits) as u32,
        format: chosen_format(formats),
        extent: chosen_extent(limits, width, height),
        image_array_layers: 1,
        image_usage: IMAGE_USAGE_COLOR_ATTACHMENT,
        pre_transform: limits.current_transform,
        composite_alpha: COMPOSITE_ALPHA_OPAQUE,
        present_mode: chosen_mode(modes),
        clipped: true,
    }
}

fn clamp(v: u32, lo: u32, hi: u32) -> (r: u32)
    requires
        lo <= hi,
    ensures
        r == clamped(v, lo, hi),
{
    if v < lo {
        lo
    } else if v > hi {
        hi
    } else {
        v
    }
}

/// Chooses format, present mode, size and number of images of the swapchain.
pub fn create_swapchain(
    limits: &SurfaceLimits,
    formats: &Vec<SurfaceFormat>,
    modes: &Vec<i32>,
    width: u32,
    height: u32,
) -> (plan: SwapchainPlan)
    requires
        formats@.len() > 0,
        limits.min_image_count < u32::MAX,
        extent_is_free(*limits) ==> extents_are_ordered(*limits),
    ensures
        plan == (SwapchainPlan {
            min_image_count: chosen_count(*limits) as u32,
            format: chosen_format(formats@),
            extent: chosen_extent(*limits, width, height),
            image_array_layers: 1,
            image_usage: IMAGE_USAGE_COLOR_ATTACHMENT,
            pre_transform: limits.current_transform,
            composite_alpha: COMPOSITE_ALPHA_OPAQUE,
            present_mode: chosen_mode(modes@),
            clipped: true,
        }),
        plan == plan_of(*limits, formats@, modes@, width, height),
{
    let srgb = SurfaceFormat {
        format: FORMAT_B8G8R8A8_SRGB,
        color_space: COLOR_SPACE_SRGB_NONLINEAR,
    };
    let mut format = formats[0];
    for i in 0..formats.len()
        invariant_except_break
            forall|j: int| 0 <= j < i ==> formats@[j] != srgb_format(),
            format == formats@[0],
        invariant
            formats@.len() > 0,
            srgb == srgb_format(),
        ensures
            format == chosen_format(formats@),
    {
        if formats[i] == srgb {
            format = srgb;
            assert(formats@.contains(srgb_format()));
            break;
        }
    }
    let mut present_mode = PRESENT_MODE_FIFO;
    for i in 0..modes.len()
        invariant_except_break
            forall|j: int| 0 <= j < i ==> modes@[j] != PRESENT_MODE_MAILBOX,
            present_mode == PRESENT_MODE_FIFO,
        ensures
            present_mode == chosen_mode(modes@),
    {
        if modes[i] == PRESENT_MODE_MAILBOX {
            present_mode = PRESENT_MODE_MAILBOX;
            assert(modes@.contains(PRESENT_MODE_MAILBOX));
            break;
        }
    }
    let extent = if limits.current_extent.width != u32::MAX {
        limits.current_extent
    } else {
        Extent {
            width: clamp(width, limits.min_image_extent.width, limits.max_image_extent.width),
            height: clamp(height, limits.min_image_extent.height, limits.max_image_extent.height),
        }
    };
    let mut min_image_count: u32 = limits.min_image_count + 1;
    if limits.max_image_count > 0 && min_image_count > limits.max_image_count {
        min_image_count = limits.max_image_count;
    }
    SwapchainPlan {
        min_image_count,
        format,
        extent,
        image_array_layers: 1,
        image_usage: IMAGE_USAGE_COLOR_ATTACHMENT,
        pre_transform: limits.current_transform,
        composite_alpha: COMPOSITE_ALPHA_OPAQUE,
        present_mode,
        clipped: true,
    }
}

/// The swapchain asks for no less than the surface needs and no more than it allows,
/// in the number of images and, where the size is its own to decide, in size. A
/// window whose size the surface allows gets images of that size.
pub proof fn law_swapchain_within_limits(limits: SurfaceLimits, width: u32, height: u32)
    requires
        limits.max_image_count == 0 || limits.min_image_count <= limits.max_image_count,
        extents_are_ordered(limits),
    ensures
        limits.min_image_count <= chosen_count(limits),
        limits.max_image_count > 0 ==> chosen_count(limits) <= limits.max_image_count,
        extent_is_free(limits) ==> ({
            let e = chosen_extent(limits, width, height);
            &&& limits.min_image_extent.width <= e.width <= limits.max_image_extent.width
            &&& limits.min_image_extent.height <= e.height <= limits.max_image_extent.height
            &&& limits.min_image_extent.width <= width <= limits.max_image_extent.width ==> e.width
                == width
            &&& limits.min_image_extent.height <= height <= limits.max_image_extent.height
                ==> e.height == height
        }),
{
}

/// The format and the present mode are among those that the surface offers, which
/// always offers the queue.
pub proof fn law_swapchain_takes_what_is_offered(formats: Seq<SurfaceFormat>, modes: Seq<i32>)
    requires
        formats.len() > 0,
        modes.contains(PRESENT_MODE_FIFO),
    ensures
        formats.contains(chosen_format(formats)),
        modes.contains(chosen_mode(modes)),
{
    assert(formats.contains(formats[0]));
}

/// The swapchain has one image more than the surface needs, unless the surface allows no
/// more than it needs. Zero allows any number.
pub proof fn law_one_image_more(limits: SurfaceLimits)
    ensures
        limits.max_image_count == 0 || limits.min_image_count < limits.max_image_count
            ==> chosen_count(limits) == limits.min_image_count + 1,
        limits.max_image_count > 0 && limits.max_image_count <= limits.min_image_count
            ==> chosen_count(limits) == limits.max_image_count,
{
}

/// The 8-bit BGRA format in sRGB is taken wherever it is offered, else the first offer;
/// images that replace a waiting one wherever these are offered, else a queue of them.
pub proof fn law_preferred_offers_are_taken(
    formats: Seq<SurfaceFormat>,
    modes: Seq<i32>,
    i: int,
    j: int,
)
    requires
        0 <= i < formats.len(),
        0 <= j < modes.len(),
    ensures
        formats[i].format == 50 && formats[i].color_space == 0 ==> chosen_format(formats)
            == formats[i],
        chosen_format(formats) == formats[0] || chosen_format(formats).format == 50
            && chosen_format(formats).color_space == 0,
        formats.contains(chosen_format(formats)),
        modes[j] == 1 ==> chosen_mode(modes) == 1,
        chosen_mode(modes) == 1 && modes.contains(1) || chosen_mode(modes) == 2 && !modes.contains(
            1,
        ),
{
    assert(formats.contains(formats[i]));
    assert(formats.contains(formats[0]));
    assert(modes.contains(modes[j]));
}

/// A surface that has a size keeps it. Where the size is free, it is the one nearest to
/// the window's: no allowed size is nearer, in either direction.
pub proof fn law_size_is_the_nearest(
    limits: SurfaceLimits,
    width: u32,
    height: u32,
    other: Extent,
)
    requires
        extents_are_ordered(limits),
        limits.min_image_extent.width <= other.width <= limits.max_image_extent.width,
        limits.min_image_extent.height <= other.height <= limits.max_image_extent.height,
    ensures
        limits.current_extent.width != 0xFFFF_FFFF ==> chosen_extent(limits, width, height)
            == limits.current_extent,
        limits.current_extent.width == 0xFFFF_FFFF ==> ({
            let e = chosen_extent(limits, width, height);
            &&& limits.min_image_extent.width <= e.width <= limits.max_image_extent.width
            &&& limits.min_image_extent.height <= e.height <= limits.max_image_extent.height
            &&& away(e.width, width) <= away(other.width, width)
            &&& away(e.height, height) <= away(other.height, height)
        }),
{
}

/// How far two lengths are apart.
pub open spec fn away(a: u32, b: u32) -> int {
    if a < b {
        b - a
    } else {
        a - b
    }
}

/// What does not depend on the offers: images of one layer to be drawn to, turned as the
/// surface is, opaque, and clipped to what is visible.
pub proof fn law_swapchain_is_drawn_to(
    limits: SurfaceLimits,
    formats: Seq<SurfaceFormat>,
    modes: Seq<i32>,
    width: u32,
    height: u32,
)
    ensures
        ({
            let plan = plan_of(limits, formats, modes, width, height);
            &&& plan.image_array_layers == 1 && plan.image_usage == 0x10
            &&& plan.pre_transform == limits.current_transform
            &&& plan.composite_alpha == 0x1 && plan.clipped
            &&& plan.format == chosen_format(formats) && plan.present_mode == chosen_mode(modes)
            &&& plan.extent == chosen_extent(limits, width, height)
            &&& chosen_count(limits) <= u32::MAX ==> plan.min_image_count == chosen_count(limits)
        }),
{
}

} // verus!
