//! The numbers that Vulkan gives to the layouts, stages, formats and uses that the
//! viewer works with.

use vstd::prelude::*;

verus! {

// Image layouts.
pub const LAYOUT_UNDEFINED: i32 = 0;

pub const LAYOUT_GENERAL: i32 = 1;

pub const LAYOUT_COLOR_ATTACHMENT: i32 = 2;

pub const LAYOUT_SHADER_READ_ONLY: i32 = 5;

pub const LAYOUT_TRANSFER_DST: i32 = 7;

pub const LAYOUT_PRESENT_SRC: i32 = 1_000_001_002;

// Kinds of memory access.
pub const ACCESS_NONE: u32 = 0;

pub const ACCESS_SHADER_READ: u32 = 0x20;

pub const ACCESS_SHADER_WRITE: u32 = 0x40;

pub const ACCESS_COLOR_ATTACHMENT_WRITE: u32 = 0x100;

pub const ACCESS_TRANSFER_WRITE: u32 = 0x1000;

// Pipeline stages.
pub const STAGE_TOP_OF_PIPE: u32 = 0x1;

pub const STAGE_VERTEX_SHADER: u32 = 0x8;

pub const STAGE_FRAGMENT_SHADER: u32 = 0x80;

pub const STAGE_COLOR_ATTACHMENT_OUTPUT: u32 = 0x400;

pub const STAGE_COMPUTE_SHADER: u32 = 0x800;

/// The fragment and the compute shader.
pub const STAGE_FRAGMENT_AND_COMPUTE: u32 = 0x880;

pub const STAGE_TRANSFER: u32 = 0x1000;

pub const STAGE_BOTTOM_OF_PIPE: u32 = 0x2000;

/// Stands for no queue family where a barrier moves nothing between queues.
pub const FAMILY_IGNORED: u32 = 0xFFFF_FFFF;

// Kinds of descriptor.
pub const DESCRIPTOR_COMBINED_IMAGE_SAMPLER: i32 = 1;

pub const DESCRIPTOR_STORAGE_IMAGE: i32 = 3;

pub const DESCRIPTOR_UNIFORM_BUFFER: i32 = 6;

pub const DESCRIPTOR_STORAGE_BUFFER: i32 = 7;

// Shaders that see a descriptor or a push constant.
pub const SHADER_VERTEX: u32 = 0x1;

pub const SHADER_FRAGMENT: u32 = 0x10;

/// The vertex and the fragment shader.
pub const SHADER_VERTEX_AND_FRAGMENT: u32 = 0x11;

pub const SHADER_COMPUTE: u32 = 0x20;

// What a pipeline is bound for.
pub const BIND_GRAPHICS: i32 = 0;

pub const BIND_COMPUTE: i32 = 1;

// What a buffer is used for.
pub const BUFFER_TRANSFER_SRC: u32 = 0x1;

pub const BUFFER_TRANSFER_DST: u32 = 0x2;

pub const BUFFER_UNIFORM: u32 = 0x10;

pub const BUFFER_STORAGE: u32 = 0x20;

pub const BUFFER_INDEX: u32 = 0x40;

pub const BUFFER_VERTEX: u32 = 0x80;

/// Stands for all of a buffer from an offset on.
pub const WHOLE_SIZE: u64 = 0xFFFF_FFFF_FFFF_FFFF;

// What an image is used for.
pub const IMAGE_TRANSFER_DST: u32 = 0x2;

pub const IMAGE_SAMPLED: u32 = 0x4;

pub const IMAGE_STORAGE: u32 = 0x8;

// Dimensions of an image and of its view.
pub const IMAGE_2D: i32 = 1;

pub const IMAGE_3D: i32 = 2;

// Pixel and vertex formats.
pub const FORMAT_R8_UNORM: i32 = 9;

pub const FORMAT_R32_SFLOAT: i32 = 100;

pub const FORMAT_R32G32_SFLOAT: i32 = 103;

pub const FORMAT_R32G32B32_SFLOAT: i32 = 106;

// Sampling.
pub const FILTER_NEAREST: i32 = 0;

pub const FILTER_LINEAR: i32 = 1;

pub const ADDRESS_CLAMP_TO_EDGE: i32 = 2;

pub const BORDER_OPAQUE_BLACK: i32 = 2;

// Rasterization and blending.
pub const TOPOLOGY_TRIANGLE_LIST: i32 = 3;

pub const POLYGON_FILL: i32 = 0;

pub const POLYGON_LINE: i32 = 1;

pub const BLEND_ONE: i32 = 1;

pub const BLEND_SRC_ALPHA: i32 = 6;

pub const BLEND_ONE_MINUS_SRC_ALPHA: i32 = 7;

pub const BLEND_OP_ADD: i32 = 0;

pub const CULL_NONE: u32 = 0;

pub const FRONT_COUNTER_CLOCKWISE: i32 = 0;

pub const SAMPLES_ONE: u32 = 0x1;

/// All four components of a color.
pub const COMPONENTS_RGBA: u32 = 0xF;

pub const INPUT_RATE_VERTEX: i32 = 0;

pub const DYNAMIC_VIEWPORT: i32 = 0;

pub const DYNAMIC_SCISSOR: i32 = 1;

// What happens to an attachment before and after drawing.
pub const LOAD_CLEAR: i32 = 1;

pub const STORE_STORE: i32 = 0;

} // verus!
