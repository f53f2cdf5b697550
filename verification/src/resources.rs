//! The objects that live on the device: what each one is made with, and what the
//! descriptor sets point to.

use crate::font::{ATLAS_H, ATLAS_W};
use crate::gpu;
use crate::gpu::{MEMORY_DEVICE_LOCAL, MEMORY_HOST_COHERENT, MEMORY_HOST_VISIBLE};
use crate::icosphere;
use crate::numbers::{
    ADDRESS_CLAMP_TO_EDGE, BIND_COMPUTE, BIND_GRAPHICS, BORDER_OPAQUE_BLACK, BUFFER_INDEX,
    BUFFER_STORAGE, BUFFER_TRANSFER_DST, BUFFER_UNIFORM, BUFFER_VERTEX,
    DESCRIPTOR_COMBINED_IMAGE_SAMPLER, DESCRIPTOR_STORAGE_BUFFER, DESCRIPTOR_STORAGE_IMAGE,
    DESCRIPTOR_UNIFORM_BUFFER, FILTER_LINEAR, FILTER_NEAREST, FORMAT_R32G32_SFLOAT,
    FORMAT_R32_SFLOAT, FORMAT_R8_UNORM, IMAGE_2D, IMAGE_3D, IMAGE_SAMPLED, IMAGE_STORAGE,
    IMAGE_TRANSFER_DST, LAYOUT_GENERAL, LAYOUT_SHADER_READ_ONLY, SHADER_COMPUTE, SHADER_FRAGMENT,
    SHADER_VERTEX, SHADER_VERTEX_AND_FRAGMENT, WHOLE_SIZE,
};
use crate::overlay::MAX_TEXT_QUADS;
use crate::waves::MAX_WAVES;
use vstd::prelude::*;

verus! {

/// How many frames are worked on at the same time.
pub const FRAMES_IN_FLIGHT: usize = 2;

/// The number of voxels along one edge of the density volume.
pub const GRID_SIZE: u32 = 128;

/// The number of coarse voxels along one edge of the density maximum.
pub const COARSE_GRID_SIZE: u32 = 16;

/// The number of voxels along one edge of a coarse voxel.
pub const COARSE_BLOCK: u32 = 8;

/// How many particles there are.
pub const PARTICLE_COUNT: u32 = 32_768;

/// How often the wave shell is split.
pub const WAVE_SUBDIV: u32 = 2;

/// How many vertices the wave shell has.
pub const WAVE_VERTEX_COUNT: u32 = 162;

/// How many corners the triangles of the wave shell have together.
pub const WAVE_INDEX_COUNT: u32 = 960;

/// How many sets the descriptor pool holds.
pub const MAX_SETS: u32 = 12;

// Sizes in bytes.
pub const CAMERA_BYTES: u64 = 208;

pub const COMPONENTS_BYTES: u64 = 272;

pub const PARTICLE_BYTES: u64 = 16;

pub const WAVE_BYTES: u64 = 32;

pub const QUAD_BYTES: u64 = 48;

pub const MIPMAP_PUSH_BYTES: u32 = 16;

pub const PARTICLES_PUSH_BYTES: u32 = 32;

pub const BILLBOARDS_PUSH_BYTES: u32 = 144;

pub const WAVES_PUSH_BYTES: u32 = 128;

pub const TEXT_PUSH_BYTES: u32 = 16;

/// The kinds of descriptor set. Sets of the first three kinds exist once per frame.
#[derive(Clone, Copy, PartialEq, Eq, Debug, Hash, Structural)]
pub enum SetKind {
    Wavefunction,
    Mipmap,
    Volume,
    Particles,
    Billboards,
    Waves,
    Text,
}

/// The passes that a frame is made of.
#[derive(Clone, Copy, PartialEq, Eq, Debug, Hash, Structural)]
pub enum Pass {
    Wavefunction,
    Mipmap,
    Particles,
    Raymarch,
    Heatmap,
    Billboards,
    Waves,
    Text,
}

/// The buffers, some of them one per frame.
#[derive(Clone, Copy, PartialEq, Eq, Debug, Hash, Structural)]
pub enum BufferName {
    Camera(usize),
    Components(usize),
    Particles,
    WaveVertices,
    WaveIndices,
    Waves,
    Text,
}

/// The images, some of them one per frame.
#[derive(Clone, Copy, PartialEq, Eq, Debug, Hash, Structural)]
pub enum ImageName {
    Volume(usize),
    PsiMax(usize),
    Font,
}

/// The samplers.
#[derive(Clone, Copy, PartialEq, Eq, Debug, Hash, Structural)]
pub enum SamplerName {
    Volume,
    Font,
}

/// A descriptor set; one that is shared by all frames has the slot zero.
#[derive(Clone, Copy, PartialEq, Eq, Debug, Hash, Structural)]
pub struct SetName {
    pub kind: SetKind,
    pub slot: usize,
}

/// One place of a descriptor set.
#[derive(Clone, Copy, PartialEq, Eq, Debug, Structural)]
pub struct Binding {
    pub binding: u32,
    pub kind: i32,
    pub count: u32,
    pub stages: u32,
}

/// What a descriptor points to.
#[derive(Clone, Copy, PartialEq, Eq, Debug, Structural)]
pub enum Source {
    Image { image: ImageName, sampler: Option<SamplerName>, layout: i32 },
    Buffer { buffer: BufferName, range: u64 },
}

/// Fills one place of a descriptor set.
#[derive(Clone, Copy, PartialEq, Eq, Debug, Structural)]
pub struct DescriptorWrite {
    pub set: SetName,
    pub binding: u32,
    pub kind: i32,
    pub source: Source,
}

/// A buffer's size in bytes, its uses, and the memory that it lies in.
#[derive(Clone, Copy, PartialEq, Eq, Debug, Structural)]
pub struct BufferSpec {
    pub size: u64,
    pub usage: u32,
    pub memory: u32,
}

/// An image's shape and format, its uses, and the memory that it lies in.
#[derive(Clone, Copy, PartialEq, Eq, Debug, Structural)]
pub struct ImageSpec {
    pub dimensions: i32,
    pub width: u32,
    pub height: u32,
    pub depth: u32,
    pub format: i32,
    pub usage: u32,
    pub memory: u32,
}

/// How a sampler reads between the pixels and beyond the edge.
#[derive(Clone, Copy, PartialEq, Eq, Debug, Structural)]
pub struct SamplerSpec {
    pub filter: i32,
    pub mipmap_mode: i32,
    pub address_mode: i32,
    pub border_color: i32,
    pub unnormalized_coordinates: bool,
}

/// The bytes that a pass is handed with its commands, and the shader that sees them.
#[derive(Clone, Copy, PartialEq, Eq, Debug, Structural)]
pub struct PushRange {
    pub stages: u32,
    pub offset: u32,
    pub size: u32,
}

/// How many descriptors of a kind a pool holds.
#[derive(Clone, Copy, PartialEq, Eq, Debug, Structural)]
pub struct PoolSize {
    pub kind: i32,
    pub count: u32,
}

/// The descriptor set that a pass reads.
pub open spec fn set_of(pass: Pass) -> SetKind {
    match pass {
        Pass::Wavefunction => SetKind::Wavefunction,
        Pass::Mipmap => SetKind::Mipmap,
        Pass::Particles => SetKind::Particles,
        Pass::Raymarch => SetKind::Volume,
        Pass::Heatmap => SetKind::Volume,
        Pass::Billboards => SetKind::Billboards,
        Pass::Waves => SetKind::Waves,
        Pass::Text => SetKind::Text,
    }
}

/// Whether a pass computes; the other ones draw.
pub open spec fn computes(pass: Pass) -> bool {
    pass == Pass::Wavefunction || pass == Pass::Mipmap || pass == Pass::Particles
}

/// Whether every frame has its own set of a kind.
pub open spec fn is_per_frame(kind: SetKind) -> bool {
    kind == SetKind::Wavefunction || kind == SetKind::Mipmap || kind == SetKind::Volume
}

/// A place for one descriptor.
pub open spec fn place(binding: u32, kind: i32, stages: u32) -> Binding {
    Binding { binding, kind, count: 1, stages }
}

/// The places of a descriptor set.
pub open spec fn bindings_of(kind: SetKind) -> Seq<Binding> {
    match kind {
        SetKind::Wavefunction => seq![
            place(0, DESCRIPTOR_STORAGE_IMAGE, SHADER_COMPUTE),
            place(1, DESCRIPTOR_UNIFORM_BUFFER, SHADER_COMPUTE),
        ],
        SetKind::Mipmap => seq![
            place(0, DESCRIPTOR_COMBINED_IMAGE_SAMPLER, SHADER_COMPUTE),
            place(1, DESCRIPTOR_STORAGE_IMAGE, SHADER_COMPUTE),
        ],
        SetKind::Volume => seq![
            place(0, DESCRIPTOR_COMBINED_IMAGE_SAMPLER, SHADER_FRAGMENT),
            place(1, DESCRIPTOR_UNIFORM_BUFFER, SHADER_FRAGMENT),
            place(2, DESCRIPTOR_COMBINED_IMAGE_SAMPLER, SHADER_FRAGMENT),
        ],
        SetKind::Particles => seq![
            place(0, DESCRIPTOR_STORAGE_BUFFER, SHADER_COMPUTE),
            place(1, DESCRIPTOR_COMBINED_IMAGE_SAMPLER, SHADER_COMPUTE),
        ],
        SetKind::Billboards => seq![
            place(0, DESCRIPTOR_STORAGE_BUFFER, SHADER_VERTEX),
            place(1, DESCRIPTOR_UNIFORM_BUFFER, SHADER_VERTEX_AND_FRAGMENT),
            place(2, DESCRIPTOR_COMBINED_IMAGE_SAMPLER, SHADER_FRAGMENT),
        ],
        SetKind::Waves => seq![
            place(0, DESCRIPTOR_STORAGE_BUFFER, SHADER_VERTEX),
        ],
        SetKind::Text => seq![
            place(0, DESCRIPTOR_STORAGE_BUFFER, SHADER_VERTEX),
            place(1, DESCRIPTOR_COMBINED_IMAGE_SAMPLER, SHADER_FRAGMENT),
        ],
    }
}

/// The bytes that go with the commands of the passes that read a kind of set.
pub open spec fn push_range_of(kind: SetKind) -> Option<PushRange> {
    match kind {
        SetKind::Wavefunction => None,
        SetKind::Mipmap => Some(
            PushRange { stages: SHADER_COMPUTE, offset: 0, size: MIPMAP_PUSH_BYTES },
        ),
        SetKind::Volume => None,
        SetKind::Particles => Some(
            PushRange { stages: SHADER_COMPUTE, offset: 0, size: PARTICLES_PUSH_BYTES },
        ),
        SetKind::Billboards => Some(
            PushRange { stages: SHADER_VERTEX, offset: 0, size: BILLBOARDS_PUSH_BYTES },
        ),
        SetKind::Waves => Some(
            PushRange { stages: SHADER_VERTEX, offset: 0, size: WAVES_PUSH_BYTES },
        ),
        SetKind::Text => Some(
            PushRange { stages: SHADER_VERTEX, offset: 0, size: TEXT_PUSH_BYTES },
        ),
    }
}

/// The descriptor set that a pass reads.
pub fn pass_set(pass: Pass) -> (kind: SetKind)
    ensures
        kind == set_of(pass),
{
    match pass {
        Pass::Wavefunction => SetKind::Wavefunction,
        Pass::Mipmap => SetKind::Mipmap,
        Pass::Particles => SetKind::Particles,
        Pass::Raymarch => SetKind::Volume,
        Pass::Heatmap => SetKind::Volume,
        Pass::Billboards => SetKind::Billboards,
        Pass::Waves => SetKind::Waves,
        Pass::Text => SetKind::Text,
    }
}

/// What a pass is bound for.
pub fn pass_bind_point(pass: Pass) -> (point: i32)
    ensures
        point == (if computes(pass) {
            BIND_COMPUTE
        } else {
            BIND_GRAPHICS
        }),
{
    match pass {
        Pass::Wavefunction => BIND_COMPUTE,
        Pass::Mipmap => BIND_COMPUTE,
        Pass::Particles => BIND_COMPUTE,
        _ => BIND_GRAPHICS,
    }
}

fn one_place(binding: u32, kind: i32, stages: u32) -> (b: Binding)
    ensures
        b == place(binding, kind, stages),
{
    Binding { binding, kind, count: 1, stages }
}

/// The places of a descriptor set.
pub fn set_bindings(kind: SetKind) -> (out: Vec<Binding>)
    ensures
        out@ == bindings_of(kind),
{
    let out = match kind {
        SetKind::Wavefunction => vec![
            one_place(0, DESCRIPTOR_STORAGE_IMAGE, SHADER_COMPUTE),
            one_place(1, DESCRIPTOR_UNIFORM_BUFFER, SHADER_COMPUTE),
        ],
        SetKind::Mipmap => vec![
            one_place(0, DESCRIPTOR_COMBINED_IMAGE_SAMPLER, SHADER_COMPUTE),
            one_place(1, DESCRIPTOR_STORAGE_IMAGE, SHADER_COMPUTE),
        ],
        SetKind::Volume => vec![
            one_place(0, DESCRIPTOR_COMBINED_IMAGE_SAMPLER, SHADER_FRAGMENT),
            one_place(1, DESCRIPTOR_UNIFORM_BUFFER, SHADER_FRAGMENT),
            one_place(2, DESCRIPTOR_COMBINED_IMAGE_SAMPLER, SHADER_FRAGMENT),
        ],
        SetKind::Particles => vec![
            one_place(0, DESCRIPTOR_STORAGE_BUFFER, SHADER_COMPUTE),
            one_place(1, DESCRIPTOR_COMBINED_IMAGE_SAMPLER, SHADER_COMPUTE),
        ],
        SetKind::Billboards => vec![
            one_place(0, DESCRIPTOR_STORAGE_BUFFER, SHADER_VERTEX),
            one_place(1, DESCRIPTOR_UNIFORM_BUFFER, SHADER_VERTEX_AND_FRAGMENT),
            one_place(2, DESCRIPTOR_COMBINED_IMAGE_SAMPLER, SHADER_FRAGMENT),
        ],
        SetKind::Waves => vec![
            one_place(0, DESCRIPTOR_STORAGE_BUFFER, SHADER_VERTEX),
        ],
        SetKind::Text => vec![
            one_place(0, DESCRIPTOR_STORAGE_BUFFER, SHADER_VERTEX),
            one_place(1, DESCRIPTOR_COMBINED_IMAGE_SAMPLER, SHADER_FRAGMENT),
        ],
    };
    assert(out@ =~= bindings_of(kind));
    out
}

/// The bytes that go with the commands of the passes that read a kind of set.
pub fn push_range(kind: SetKind) -> (range: Option<PushRange>)
    ensures
        range == push_range_of(kind),
{
    match kind {
        SetKind::Wavefunction => None,
        SetKind::Mipmap => Some(
            PushRange { stages: SHADER_COMPUTE, offset: 0, size: MIPMAP_PUSH_BYTES },
        ),
        SetKind::Volume => None,
        SetKind::Particles => Some(
            PushRange { stages: SHADER_COMPUTE, offset: 0, size: PARTICLES_PUSH_BYTES },
        ),
        SetKind::Billboards => Some(
            PushRange { stages: SHADER_VERTEX, offset: 0, size: BILLBOARDS_PUSH_BYTES },
        ),
        SetKind::Waves => Some(
            PushRange { stages: SHADER_VERTEX, offset: 0, size: WAVES_PUSH_BYTES },
        ),
        SetKind::Text => Some(
            PushRange { stages: SHADER_VERTEX, offset: 0, size: TEXT_PUSH_BYTES },
        ),
    }
}

/// How a buffer is made. The wave shell's buffers hold three floats per vertex and one
/// number per corner of a triangle.
pub open spec fn buffer_spec_of(b: BufferName) -> BufferSpec {
    match b {
        BufferName::Camera(_) => BufferSpec {
            size: CAMERA_BYTES,
            usage: BUFFER_UNIFORM,
            memory: MEMORY_HOST_VISIBLE | MEMORY_HOST_COHERENT,
        },
        BufferName::Components(_) => BufferSpec {
            size: COMPONENTS_BYTES,
            usage: BUFFER_UNIFORM,
            memory: MEMORY_HOST_VISIBLE | MEMORY_HOST_COHERENT,
        },
        BufferName::Particles => BufferSpec {
            size: (PARTICLE_COUNT * PARTICLE_BYTES) as u64,
            usage: BUFFER_STORAGE,
            memory: MEMORY_DEVICE_LOCAL,
        },
        BufferName::WaveVertices => BufferSpec {
            size: (12 * icosphere::icosphere(WAVE_SUBDIV as nat).vertex_count()) as u64,
            usage: BUFFER_TRANSFER_DST | BUFFER_VERTEX,
            memory: MEMORY_DEVICE_LOCAL,
        },
        BufferName::WaveIndices => BufferSpec {
            size: (12 * icosphere::icosphere(WAVE_SUBDIV as nat).triangles.len()) as u64,
            usage: BUFFER_TRANSFER_DST | BUFFER_INDEX,
            memory: MEMORY_DEVICE_LOCAL,
        },
        BufferName::Waves => BufferSpec {
            size: (MAX_WAVES * WAVE_BYTES) as u64,
            usage: BUFFER_STORAGE,
            memory: MEMORY_HOST_VISIBLE | MEMORY_HOST_COHERENT,
        },
        BufferName::Text => BufferSpec {
            size: (MAX_TEXT_QUADS * QUAD_BYTES) as u64,
            usage: BUFFER_STORAGE,
            memory: MEMORY_HOST_VISIBLE | MEMORY_HOST_COHERENT,
        },
    }
}

/// How a buffer is made.
pub fn buffer_spec(b: BufferName) -> (spec: BufferSpec)
    ensures
        spec == buffer_spec_of(b),
{
    match b {
        BufferName::Camera(_) => BufferSpec {
            size: CAMERA_BYTES,
            usage: BUFFER_UNIFORM,
            memory: MEMORY_HOST_VISIBLE | MEMORY_HOST_COHERENT,
        },
        BufferName::Components(_) => BufferSpec {
            size: COMPONENTS_BYTES,
            usage: BUFFER_UNIFORM,
            memory: MEMORY_HOST_VISIBLE | MEMORY_HOST_COHERENT,
        },
        BufferName::Particles => BufferSpec {
            size: PARTICLE_COUNT as u64 * PARTICLE_BYTES,
            usage: BUFFER_STORAGE,
            memory: MEMORY_DEVICE_LOCAL,
        },
        BufferName::WaveVertices => {
            proof {
                law_wave_shell_counts();
            }
            BufferSpec {
                size: 12 * WAVE_VERTEX_COUNT as u64,
                usage: BUFFER_TRANSFER_DST | BUFFER_VERTEX,
                memory: MEMORY_DEVICE_LOCAL,
            }
        },
        BufferName::WaveIndices => {
            proof {
                law_wave_shell_counts();
            }
            BufferSpec {
                size: 4 * WAVE_INDEX_COUNT as u64,
                usage: BUFFER_TRANSFER_DST | BUFFER_INDEX,
                memory: MEMORY_DEVICE_LOCAL,
            }
        },
        BufferName::Waves => BufferSpec {
            size: MAX_WAVES as u64 * WAVE_BYTES,
            usage: BUFFER_STORAGE,
            memory: MEMORY_HOST_VISIBLE | MEMORY_HOST_COHERENT,
        },
        BufferName::Text => BufferSpec {
            size: MAX_TEXT_QUADS as u64 * QUAD_BYTES,
            usage: BUFFER_STORAGE,
            memory: MEMORY_HOST_VISIBLE | MEMORY_HOST_COHERENT,
        },
    }
}

/// The wave shell has as many vertices and indices as its buffers are made for.
pub proof fn law_wave_shell_counts()
    ensures
        icosphere::icosphere(WAVE_SUBDIV as nat).vertex_count() == WAVE_VERTEX_COUNT,
        3 * icosphere::icosphere(WAVE_SUBDIV as nat).triangles.len() == WAVE_INDEX_COUNT,
{
    icosphere::law_icosphere_is_closed(WAVE_SUBDIV as nat);
    assert(vstd::arithmetic::power::pow(4, 2) == 16) by {
        reveal_with_fuel(vstd::arithmetic::power::pow, 3);
    }
}

/// A cube that shaders write and sample.
pub open spec fn cube_spec(size: u32, format: i32) -> ImageSpec {
    ImageSpec {
        dimensions: IMAGE_3D,
        width: size,
        height: size,
        depth: size,
        format,
        usage: IMAGE_SAMPLED | IMAGE_STORAGE,
        memory: MEMORY_DEVICE_LOCAL,
    }
}

/// How an image is made.
pub open spec fn image_spec_of(i: ImageName) -> ImageSpec {
    match i {
        ImageName::Volume(_) => cube_spec(GRID_SIZE, FORMAT_R32G32_SFLOAT),
        ImageName::PsiMax(_) => cube_spec(COARSE_GRID_SIZE, FORMAT_R32_SFLOAT),
        ImageName::Font => ImageSpec {
            dimensions: IMAGE_2D,
            width: ATLAS_W,
            height: ATLAS_H,
            depth: 1,
            format: FORMAT_R8_UNORM,
            usage: IMAGE_TRANSFER_DST | IMAGE_SAMPLED,
            memory: MEMORY_DEVICE_LOCAL,
        },
    }
}

/// A cube that shaders write and sample.
fn create_volume_3d(size: u32, format: i32) -> (spec: ImageSpec)
    ensures
        spec == cube_spec(size, format),
{
    ImageSpec {
        dimensions: IMAGE_3D,
        width: size,
        height: size,
        depth: size,
        format,
        usage: IMAGE_SAMPLED | IMAGE_STORAGE,
        memory: MEMORY_DEVICE_LOCAL,
    }
}

/// How an image is made.
pub fn image_spec(i: ImageName) -> (spec: ImageSpec)
    ensures
        spec == image_spec_of(i),
{
    match i {
        ImageName::Volume(_) => create_volume_3d(GRID_SIZE, FORMAT_R32G32_SFLOAT),
        ImageName::PsiMax(_) => create_volume_3d(COARSE_GRID_SIZE, FORMAT_R32_SFLOAT),
        ImageName::Font => ImageSpec {
            dimensions: IMAGE_2D,
            width: ATLAS_W,
            height: ATLAS_H,
            depth: 1,
            format: FORMAT_R8_UNORM,
            usage: IMAGE_TRANSFER_DST | IMAGE_SAMPLED,
            memory: MEMORY_DEVICE_LOCAL,
        },
    }
}

/// How a sampler is made: the volume is read smoothly, the font pixel by pixel.
pub open spec fn sampler_spec_of(s: SamplerName) -> SamplerSpec {
    let filter = match s {
        SamplerName::Volume => FILTER_LINEAR,
        SamplerName::Font => FILTER_NEAREST,
    };
    SamplerSpec {
        filter,
        mipmap_mode: filter,
        address_mode: ADDRESS_CLAMP_TO_EDGE,
        border_color: BORDER_OPAQUE_BLACK,
        unnormalized_coordinates: false,
    }
}

/// How a sampler is made.
pub fn sampler_spec(s: SamplerName) -> (spec: SamplerSpec)
    ensures
        spec == sampler_spec_of(s),
{
    let filter: i32 = match s {
        SamplerName::Volume => FILTER_LINEAR,
        SamplerName::Font => FILTER_NEAREST,
    };
    SamplerSpec {
        filter,
        mipmap_mode: filter,
        address_mode: ADDRESS_CLAMP_TO_EDGE,
        border_color: BORDER_OPAQUE_BLACK,
        unnormalized_coordinates: false,
    }
}

/// A descriptor set.
pub open spec fn named(kind: SetKind, slot: usize) -> SetName {
    SetName { kind, slot }
}

/// Points to an image that shaders write.
pub open spec fn stored(set: SetName, binding: u32, image: ImageName) -> DescriptorWrite {
    DescriptorWrite {
        set,
        binding,
        kind: DESCRIPTOR_STORAGE_IMAGE,
        source: Source::Image { image, sampler: None, layout: LAYOUT_GENERAL },
    }
}

/// Points to an image that shaders read.
pub open spec fn sampled(
    set: SetName,
    binding: u32,
    image: ImageName,
    sampler: SamplerName,
) -> DescriptorWrite {
    DescriptorWrite {
        set,
        binding,
        kind: DESCRIPTOR_COMBINED_IMAGE_SAMPLER,
        source: Source::Image { image, sampler: Some(sampler), layout: LAYOUT_SHADER_READ_ONLY },
    }
}

/// Points to a block of numbers for the shaders.
pub open spec fn uniform(set: SetName, binding: u32, buffer: BufferName, range: u64)
    -> DescriptorWrite {
    DescriptorWrite {
        set,
        binding,
        kind: DESCRIPTOR_UNIFORM_BUFFER,
        source: Source::Buffer { buffer, range },
    }
}

/// Points to a whole list of items for the shaders.
pub open spec fn storage(set: SetName, binding: u32, buffer: BufferName) -> DescriptorWrite {
    DescriptorWrite {
        set,
        binding,
        kind: DESCRIPTOR_STORAGE_BUFFER,
        source: Source::Buffer { buffer, range: WHOLE_SIZE },
    }
}

fn named_by(kind: SetKind, slot: usize) -> (set: SetName)
    ensures
        set == named(kind, slot),
{
    SetName { kind, slot }
}

fn stored_by(set: SetName, binding: u32, image: ImageName) -> (w: DescriptorWrite)
    ensures
        w == stored(set, binding, image),
{
    DescriptorWrite {
        set,
        binding,
        kind: DESCRIPTOR_STORAGE_IMAGE,
        source: Source::Image { image, sampler: None, layout: LAYOUT_GENERAL },
    }
}

fn sampled_by(set: SetName, binding: u32, image: ImageName, sampler: SamplerName) -> (w:
    DescriptorWrite)
    ensures
        w == sampled(set, binding, image, sampler),
{
    DescriptorWrite {
        set,
        binding,
        kind: DESCRIPTOR_COMBINED_IMAGE_SAMPLER,
        source: Source::Image { image, sampler: Some(sampler), layout: LAYOUT_SHADER_READ_ONLY },
    }
}

fn uniform_by(set: SetName, binding: u32, buffer: BufferName, range: u64) -> (w: DescriptorWrite)
    ensures
        w == uniform(set, binding, buffer, range),
{
    DescriptorWrite {
        set,
        binding,
        kind: DESCRIPTOR_UNIFORM_BUFFER,
        source: Source::Buffer { buffer, range },
    }
}

fn storage_by(set: SetName, binding: u32, buffer: BufferName) -> (w: DescriptorWrite)
    ensures
        w == storage(set, binding, buffer),
{
    DescriptorWrite {
        set,
        binding,
        kind: DESCRIPTOR_STORAGE_BUFFER,
        source: Source::Buffer { buffer, range: WHOLE_SIZE },
    }
}

/// What the sets of one frame point to.
pub open spec fn frame_writes_of(slot: usize) -> Seq<DescriptorWrite> {
    seq![
        stored(named(SetKind::Wavefunction, slot), 0, ImageName::Volume(slot)),
        uniform(
            named(SetKind::Wavefunction, slot),
            1,
            BufferName::Components(slot),
            COMPONENTS_BYTES,
        ),
        sampled(named(SetKind::Mipmap, slot), 0, ImageName::Volume(slot), SamplerName::Volume),
        stored(named(SetKind::Mipmap, slot), 1, ImageName::PsiMax(slot)),
        sampled(named(SetKind::Volume, slot), 0, ImageName::Volume(slot), SamplerName::Volume),
        uniform(named(SetKind::Volume, slot), 1, BufferName::Camera(slot), CAMERA_BYTES),
        sampled(named(SetKind::Volume, slot), 2, ImageName::PsiMax(slot), SamplerName::Volume),
    ]
}

/// What the sets of one frame point to.
pub fn frame_writes(slot: usize) -> (out: Vec<DescriptorWrite>)
    ensures
        out@ == frame_writes_of(slot),
{
    let out = vec![
        stored_by(named_by(SetKind::Wavefunction, slot), 0, ImageName::Volume(slot)),
        uniform_by(
            named_by(SetKind::Wavefunction, slot),
            1,
            BufferName::Components(slot),
            COMPONENTS_BYTES,
        ),
        sampled_by(
            named_by(SetKind::Mipmap, slot),
            0,
            ImageName::Volume(slot),
            SamplerName::Volume,
        ),
        stored_by(named_by(SetKind::Mipmap, slot), 1, ImageName::PsiMax(slot)),
        sampled_by(
            named_by(SetKind::Volume, slot),
            0,
            ImageName::Volume(slot),
            SamplerName::Volume,
        ),
        uniform_by(named_by(SetKind::Volume, slot), 1, BufferName::Camera(slot), CAMERA_BYTES),
        sampled_by(
            named_by(SetKind::Volume, slot),
            2,
            ImageName::PsiMax(slot),
            SamplerName::Volume,
        ),
    ];
    assert(out@ =~= frame_writes_of(slot));
    out
}

/// What the particles' sets point to: they read the volume and the camera of the first
/// frame.
pub open spec fn particle_writes_of() -> Seq<DescriptorWrite> {
    seq![
        storage(named(SetKind::Particles, 0), 0, BufferName::Particles),
        sampled(named(SetKind::Particles, 0), 1, ImageName::Volume(0), SamplerName::Volume),
        storage(named(SetKind::Billboards, 0), 0, BufferName::Particles),
        uniform(named(SetKind::Billboards, 0), 1, BufferName::Camera(0), CAMERA_BYTES),
        sampled(named(SetKind::Billboards, 0), 2, ImageName::Volume(0), SamplerName::Volume),
    ]
}

/// What the particles' sets point to.
pub fn particle_writes() -> (out: Vec<DescriptorWrite>)
    ensures
        out@ == particle_writes_of(),
{
    let out = vec![
        storage_by(named_by(SetKind::Particles, 0), 0, BufferName::Particles),
        sampled_by(named_by(SetKind::Particles, 0), 1, ImageName::Volume(0), SamplerName::Volume),
        storage_by(named_by(SetKind::Billboards, 0), 0, BufferName::Particles),
        uniform_by(named_by(SetKind::Billboards, 0), 1, BufferName::Camera(0), CAMERA_BYTES),
        sampled_by(named_by(SetKind::Billboards, 0), 2, ImageName::Volume(0), SamplerName::Volume),
    ];
    assert(out@ =~= particle_writes_of());
    out
}

/// What the waves' set points to.
pub open spec fn wave_writes_of() -> Seq<DescriptorWrite> {
    seq![
        storage(named(SetKind::Waves, 0), 0, BufferName::Waves),
    ]
}

/// What the waves' set points to.
pub fn wave_writes() -> (out: Vec<DescriptorWrite>)
    ensures
        out@ == wave_writes_of(),
{
    let out = vec![
        storage_by(named_by(SetKind::Waves, 0), 0, BufferName::Waves),
    ];
    assert(out@ =~= wave_writes_of());
    out
}

/// What the text's set points to.
pub open spec fn text_writes_of() -> Seq<DescriptorWrite> {
    seq![
        storage(named(SetKind::Text, 0), 0, BufferName::Text),
        sampled(named(SetKind::Text, 0), 1, ImageName::Font, SamplerName::Font),
    ]
}

/// What the text's set points to.
pub fn text_writes() -> (out: Vec<DescriptorWrite>)
    ensures
        out@ == text_writes_of(),
{
    let out = vec![
        storage_by(named_by(SetKind::Text, 0), 0, BufferName::Text),
        sampled_by(named_by(SetKind::Text, 0), 1, ImageName::Font, SamplerName::Font),
    ];
    assert(out@ =~= text_writes_of());
    out
}

/// How many descriptors of each kind the pool holds.
pub open spec fn pool_sizes_of() -> Seq<PoolSize> {
    seq![
        PoolSize { kind: DESCRIPTOR_STORAGE_IMAGE, count: 6 },
        PoolSize { kind: DESCRIPTOR_COMBINED_IMAGE_SAMPLER, count: 12 },
        PoolSize { kind: DESCRIPTOR_UNIFORM_BUFFER, count: 6 },
        PoolSize { kind: DESCRIPTOR_STORAGE_BUFFER, count: 6 },
    ]
}

/// How many descriptors of each kind the pool holds.
pub fn pool_sizes() -> (out: Vec<PoolSize>)
    ensures
        out@ == pool_sizes_of(),
{
    let out = vec![
        PoolSize { kind: DESCRIPTOR_STORAGE_IMAGE, count: 6 },
        PoolSize { kind: DESCRIPTOR_COMBINED_IMAGE_SAMPLER, count: 12 },
        PoolSize { kind: DESCRIPTOR_UNIFORM_BUFFER, count: 6 },
        PoolSize { kind: DESCRIPTOR_STORAGE_BUFFER, count: 6 },
    ];
    assert(out@ =~= pool_sizes_of());
    out
}

/// The writes of all sets.
pub open spec fn all_writes() -> Seq<DescriptorWrite> {
    frame_writes_of(0) + frame_writes_of(1) + particle_writes_of() + wave_writes_of()
        + text_writes_of()
}

/// All sets that are allocated from the pool.
pub open spec fn all_sets() -> Seq<SetName> {
    seq![
        SetName { kind: SetKind::Wavefunction, slot: 0 },
        SetName { kind: SetKind::Mipmap, slot: 0 },
        SetName { kind: SetKind::Volume, slot: 0 },
        SetName { kind: SetKind::Wavefunction, slot: 1 },
        SetName { kind: SetKind::Mipmap, slot: 1 },
        SetName { kind: SetKind::Volume, slot: 1 },
        SetName { kind: SetKind::Particles, slot: 0 },
        SetName { kind: SetKind::Billboards, slot: 0 },
        SetName { kind: SetKind::Waves, slot: 0 },
        SetName { kind: SetKind::Text, slot: 0 },
    ]
}

/// Whether a write fills an existing place with something of the place's kind.
pub open spec fn fits_place(w: DescriptorWrite) -> bool {
    &&& w.binding < bindings_of(w.set.kind).len()
    &&& bindings_of(w.set.kind)[w.binding as int].binding == w.binding
    &&& bindings_of(w.set.kind)[w.binding as int].kind == w.kind
}

/// Whether what a write points to was made for the use that the write's kind stands
/// for: storage images in the layout that shaders write, sampled images with a sampler
/// and in the layout that shaders read, buffers for that kind and no shorter than
/// what is read of them.
pub open spec fn source_suits(w: DescriptorWrite) -> bool {
    match w.source {
        Source::Image { image, sampler, layout } => {
            let usage = image_spec_of(image).usage;
            ||| w.kind == DESCRIPTOR_STORAGE_IMAGE && sampler is None && layout == LAYOUT_GENERAL
                && gpu::has_bits(usage, IMAGE_STORAGE)
            ||| w.kind == DESCRIPTOR_COMBINED_IMAGE_SAMPLER && sampler is Some && layout
                == LAYOUT_SHADER_READ_ONLY && gpu::has_bits(usage, IMAGE_SAMPLED)
        },
        Source::Buffer { buffer, range } => {
            let made = buffer_spec_of(buffer);
            &&& range == WHOLE_SIZE || range <= made.size
            &&& {
                ||| w.kind == DESCRIPTOR_UNIFORM_BUFFER && gpu::has_bits(made.usage, BUFFER_UNIFORM)
                ||| w.kind == DESCRIPTOR_STORAGE_BUFFER && gpu::has_bits(made.usage, BUFFER_STORAGE)
            }
        },
    }
}

/// Every write fills an existing place with something that suits it, and no place is
/// filled twice.
pub proof fn law_writes_fit()
    ensures
        forall|i: int|
            0 <= i < all_writes().len() ==> fits_place(#[trigger] all_writes()[i]) && source_suits(
                all_writes()[i],
            ),
        forall|i: int, j: int|
            0 <= i < j < all_writes().len() ==> (#[trigger] all_writes()[i]).set != (
            #[trigger] all_writes()[j]).set || all_writes()[i].binding != all_writes()[j].binding,
{
    let all = all_writes();
    assert((IMAGE_SAMPLED | IMAGE_STORAGE) & IMAGE_STORAGE == IMAGE_STORAGE) by (bit_vector);
    assert((IMAGE_SAMPLED | IMAGE_STORAGE) & IMAGE_SAMPLED == IMAGE_SAMPLED) by (bit_vector);
    assert((IMAGE_TRANSFER_DST | IMAGE_SAMPLED) & IMAGE_SAMPLED == IMAGE_SAMPLED) by (bit_vector);
    assert(BUFFER_UNIFORM & BUFFER_UNIFORM == BUFFER_UNIFORM) by (bit_vector);
    assert(BUFFER_STORAGE & BUFFER_STORAGE == BUFFER_STORAGE) by (bit_vector);
    assert(all.len() == 22);
    assert forall|i: int| 0 <= i < all.len() implies fits_place(#[trigger] all[i]) && source_suits(
        all[i],
    ) by {
        assert(i == 0 || i == 1 || i == 2 || i == 3 || i == 4 || i == 5 || i == 6 || i == 7 || i
            == 8 || i == 9 || i == 10 || i == 11 || i == 12 || i == 13 || i == 14 || i == 15 || i
            == 16 || i == 17 || i == 18 || i == 19 || i == 20 || i == 21);
    }
    assert forall|i: int, j: int| 0 <= i < j < all.len() implies (#[trigger] all[i]).set != (
    #[trigger] all[j]).set || all[i].binding != all[j].binding by {
        assert(i == 0 || i == 1 || i == 2 || i == 3 || i == 4 || i == 5 || i == 6 || i == 7 || i
            == 8 || i == 9 || i == 10 || i == 11 || i == 12 || i == 13 || i == 14 || i == 15 || i
            == 16 || i == 17 || i == 18 || i == 19 || i == 20 || i == 21);
        assert(j == 0 || j == 1 || j == 2 || j == 3 || j == 4 || j == 5 || j == 6 || j == 7 || j
            == 8 || j == 9 || j == 10 || j == 11 || j == 12 || j == 13 || j == 14 || j == 15 || j
            == 16 || j == 17 || j == 18 || j == 19 || j == 20 || j == 21);
    }
}

/// Whether some write fills a place of a set.
pub open spec fn is_filled(set: SetName, binding: int) -> bool {
    exists|i: int|
        0 <= i < all_writes().len() && (#[trigger] all_writes()[i]).set == set
            && all_writes()[i].binding == binding
}

/// No place of a set is left open.
pub proof fn law_every_place_is_filled(k: int, binding: int)
    requires
        0 <= k < all_sets().len(),
        0 <= binding < bindings_of(all_sets()[k].kind).len(),
    ensures
        is_filled(all_sets()[k], binding),
{
    let all = all_writes();
    let set = all_sets()[k];
    assert(k == 0 || k == 1 || k == 2 || k == 3 || k == 4 || k == 5 || k == 6 || k == 7 || k == 8
        || k == 9);
    let first: int = if k == 0 {
        0
    } else if k == 1 {
        2
    } else if k == 2 {
        4
    } else if k == 3 {
        7
    } else if k == 4 {
        9
    } else if k == 5 {
        11
    } else if k == 6 {
        14
    } else if k == 7 {
        16
    } else if k == 8 {
        19
    } else {
        20
    };
    assert(binding == 0 || binding == 1 || binding == 2);
    assert(all[first + binding].set == set && all[first + binding].binding == binding);
}

/// How many descriptors of a kind a set has.
pub open spec fn descriptors_in(bindings: Seq<Binding>, kind: i32) -> int
    decreases bindings.len(),
{
    if bindings.len() == 0 {
        0
    } else {
        descriptors_in(bindings.drop_last(), kind) + if bindings.last().kind == kind {
            bindings.last().count as int
        } else {
            0
        }
    }
}

/// How many descriptors of a kind some sets have together.
pub open spec fn descriptors_needed(sets: Seq<SetName>, kind: i32) -> int
    decreases sets.len(),
{
    if sets.len() == 0 {
        0
    } else {
        descriptors_needed(sets.drop_last(), kind) + descriptors_in(
            bindings_of(sets.last().kind),
            kind,
        )
    }
}

proof fn lemma_descriptors_in(kind: SetKind, of: i32)
    ensures
        descriptors_in(bindings_of(kind), of) == ({
            let b = bindings_of(kind);
            (if b[0].kind == of { 1int } else { 0 }) + (if b.len() > 1 && b[1].kind == of {
                1int
            } else {
                0
            }) + (if b.len() > 2 && b[2].kind == of { 1int } else { 0 })
        }),
{
    reveal_with_fuel(descriptors_in, 4);
}

proof fn lemma_needed_step(sets: Seq<SetName>, k: int, of: i32)
    requires
        0 <= k < sets.len(),
    ensures
        descriptors_needed(sets.take(k + 1), of) == descriptors_needed(sets.take(k), of)
            + descriptors_in(bindings_of(sets[k].kind), of),
{
    assert(sets.take(k + 1).drop_last() =~= sets.take(k));
}

/// The pool is large enough for all sets: in their number, and in the number of
/// descriptors of each kind.
pub proof fn law_pool_suffices(i: int)
    requires
        0 <= i < pool_sizes_of().len(),
    ensures
        all_sets().len() <= MAX_SETS,
        descriptors_needed(all_sets(), pool_sizes_of()[i].kind) <= pool_sizes_of()[i].count,
{
    let of = pool_sizes_of()[i].kind;
    assert(i == 0 || i == 1 || i == 2 || i == 3);
    lemma_descriptors_in(SetKind::Wavefunction, of);
    lemma_descriptors_in(SetKind::Mipmap, of);
    lemma_descriptors_in(SetKind::Volume, of);
    lemma_descriptors_in(SetKind::Particles, of);
    lemma_descriptors_in(SetKind::Billboards, of);
    lemma_descriptors_in(SetKind::Waves, of);
    lemma_descriptors_in(SetKind::Text, of);
    let all = all_sets();
    assert(descriptors_needed(all.take(0), of) == 0);
    lemma_needed_step(all, 0, of);
    lemma_needed_step(all, 1, of);
    lemma_needed_step(all, 2, of);
    lemma_needed_step(all, 3, of);
    lemma_needed_step(all, 4, of);
    lemma_needed_step(all, 5, of);
    lemma_needed_step(all, 6, of);
    lemma_needed_step(all, 7, of);
    lemma_needed_step(all, 8, of);
    lemma_needed_step(all, 9, of);
    assert(all.take(10) =~= all);
}

/// The coarse grid covers the fine one exactly, block by block.
pub proof fn law_coarse_grid_covers()
    ensures
        COARSE_GRID_SIZE * COARSE_BLOCK == GRID_SIZE,
{
}

/// Whether a write lets shaders write an image.
pub open spec fn lets_write(w: DescriptorWrite, of: ImageName) -> bool {
    w.source matches Source::Image { image, sampler, .. } && image == of && sampler is None
}

/// Whether a write lets shaders read an image through a sampler.
pub open spec fn lets_read(w: DescriptorWrite, of: ImageName, by: SamplerName) -> bool {
    w.source matches Source::Image { image, sampler, .. } && image == of && sampler == Some(by)
}

/// Whether a write lets shaders see so many bytes of a buffer.
pub open spec fn lets_see(w: DescriptorWrite, of: BufferName, bytes: u64) -> bool {
    w.source matches Source::Buffer { buffer, range } && buffer == of && range == bytes
}

/// Whether a write is one of those that the passes need. In every frame slot the
/// wavefunction goes from the components to the volume, the coarse maximum from the volume
/// to its own image, and the picture from both of these and the camera. The particles go
/// by the volume and the camera of the first slot. Shells and text have a buffer each, and
/// the text reads the font.
pub open spec fn is_needed(w: DescriptorWrite) -> bool {
    let slot = w.set.slot;
    let all: u64 = 0xFFFF_FFFF_FFFF_FFFF;
    match (w.set.kind, w.binding) {
        (SetKind::Wavefunction, 0) => lets_write(w, ImageName::Volume(slot)),
        (SetKind::Wavefunction, 1) => lets_see(w, BufferName::Components(slot), 272),
        (SetKind::Mipmap, 0) => lets_read(w, ImageName::Volume(slot), SamplerName::Volume),
        (SetKind::Mipmap, 1) => lets_write(w, ImageName::PsiMax(slot)),
        (SetKind::Volume, 0) => lets_read(w, ImageName::Volume(slot), SamplerName::Volume),
        (SetKind::Volume, 1) => lets_see(w, BufferName::Camera(slot), 208),
        (SetKind::Volume, 2) => lets_read(w, ImageName::PsiMax(slot), SamplerName::Volume),
        (SetKind::Particles, 0) => slot == 0 && lets_see(w, BufferName::Particles, all),
        (SetKind::Particles, 1) => slot == 0 && lets_read(
            w,
            ImageName::Volume(0),
            SamplerName::Volume,
        ),
        (SetKind::Billboards, 0) => slot == 0 && lets_see(w, BufferName::Particles, all),
        (SetKind::Billboards, 1) => slot == 0 && lets_see(w, BufferName::Camera(0), 208),
        (SetKind::Billboards, 2) => slot == 0 && lets_read(
            w,
            ImageName::Volume(0),
            SamplerName::Volume,
        ),
        (SetKind::Waves, 0) => slot == 0 && lets_see(w, BufferName::Waves, all),
        (SetKind::Text, 0) => slot == 0 && lets_see(w, BufferName::Text, all),
        (SetKind::Text, 1) => slot == 0 && lets_read(w, ImageName::Font, SamplerName::Font),
        _ => false,
    }
}

/// The sets of a frame slot point to what belongs to the slot: everything that is written
/// in a frame is read in the same one.
pub proof fn law_frames_keep_to_themselves(slot: usize, i: int)
    requires
        0 <= i < frame_writes_of(slot).len(),
    ensures
        frame_writes_of(slot).len() == 7,
        frame_writes_of(slot)[i].set.slot == slot,
        is_needed(frame_writes_of(slot)[i]),
        is_per_frame(frame_writes_of(slot)[i].set.kind),
{
    assert(i == 0 || i == 1 || i == 2 || i == 3 || i == 4 || i == 5 || i == 6);
}

/// The sets that all frames share point to what the particles, the shells and the text
/// need.
pub proof fn law_shared_sets_point_to_their_own(i: int)
    ensures
        particle_writes_of().len() == 5,
        0 <= i < 5 ==> is_needed(particle_writes_of()[i]),
        wave_writes_of().len() == 1,
        is_needed(wave_writes_of()[0]) && wave_writes_of()[0].set.kind is Waves,
        text_writes_of().len() == 2,
        0 <= i < 2 ==> is_needed(text_writes_of()[i]) && text_writes_of()[i].set.kind is Text,
{
    if 0 <= i < 5 {
        assert(i == 0 || i == 1 || i == 2 || i == 3 || i == 4);
    }
}

/// Every pass reads its own set; only the volume and the heatmap share one. What computes
/// is bound to compute.
pub proof fn law_passes_read_their_sets(pass: Pass)
    ensures
        pass is Wavefunction <==> set_of(pass) is Wavefunction,
        pass is Mipmap <==> set_of(pass) is Mipmap,
        pass is Particles <==> set_of(pass) is Particles,
        pass is Raymarch || pass is Heatmap <==> set_of(pass) is Volume,
        pass is Billboards <==> set_of(pass) is Billboards,
        pass is Waves <==> set_of(pass) is Waves,
        pass is Text <==> set_of(pass) is Text,
        computes(pass) <==> pass is Wavefunction || pass is Mipmap || pass is Particles,
        is_per_frame(set_of(pass)) <==> pass is Wavefunction || pass is Mipmap || pass is Raymarch
            || pass is Heatmap,
{
}

/// The places of a set are numbered from zero, hold one descriptor each, and are seen by
/// the shaders of the passes that read the set: by the compute shader, or by vertex and
/// fragment shader. Where a pass draws, lists of items are for its vertex shader and images
/// for its fragment shader.
pub proof fn law_places_are_seen_by_their_passes(pass: Pass, i: int)
    requires
        0 <= i < bindings_of(set_of(pass)).len(),
    ensures
        ({
            let place = bindings_of(set_of(pass))[i];
            &&& place.binding == i && place.count == 1
            &&& computes(pass) ==> place.stages == 0x20
            &&& !computes(pass) && place.kind == 7 ==> place.stages == 0x1
            &&& !computes(pass) && place.kind == 1 ==> place.stages == 0x10
            &&& !computes(pass) && place.kind == 6 ==> place.stages == if pass is Billboards {
                0x11u32
            } else {
                0x10u32
            }
            &&& !computes(pass) ==> place.kind == 1 || place.kind == 6 || place.kind == 7
        }),
{
}

/// How many places the set of each pass has: as many as it has things to see.
pub proof fn law_sets_have_their_places()
    ensures
        bindings_of(SetKind::Wavefunction).len() == 2,
        bindings_of(SetKind::Mipmap).len() == 2,
        bindings_of(SetKind::Volume).len() == 3,
        bindings_of(SetKind::Particles).len() == 2,
        bindings_of(SetKind::Billboards).len() == 3,
        bindings_of(SetKind::Waves).len() == 1,
        bindings_of(SetKind::Text).len() == 2,
{
}

/// What goes with the commands starts at the first byte and is for the compute shader
/// where the pass computes, else for the vertex shader. The particles take eight words
/// to move, and two matrices and four words to be drawn; shells take two matrices, the
/// coarse maximum and the text four words each; the wavefunction and the picture none.
pub proof fn law_pushed_bytes(pass: Pass)
    ensures
        push_range_of(set_of(pass)) is None <==> pass is Wavefunction || pass is Raymarch
            || pass is Heatmap,
        push_range_of(set_of(pass)) matches Some(range) ==> {
            &&& range.offset == 0
            &&& range.stages == if computes(pass) {
                0x20u32
            } else {
                0x1u32
            }
            &&& pass is Mipmap || pass is Text ==> range.size == 4 * 4
            &&& pass is Particles ==> range.size == 8 * 4
            &&& pass is Billboards ==> range.size == 2 * 64 + 4 * 4
            &&& pass is Waves ==> range.size == 2 * 64
        },
{
}

/// Each buffer has room for all that it is for: three matrices and four words of camera,
/// four words and eight terms of eight words each, sixteen bytes to a particle, thirty-two
/// to a shell, forty-eight to a glyph, and of the shell's shape three floats to a vertex
/// and one word to a corner.
pub proof fn law_buffers_have_room(slot: usize)
    ensures
        buffer_spec_of(BufferName::Camera(slot)).size == 3 * 64 + 4 * 4,
        buffer_spec_of(BufferName::Components(slot)).size == 4 * 4 + 8 * 8 * 4,
        buffer_spec_of(BufferName::Particles).size == PARTICLE_COUNT * 16,
        buffer_spec_of(BufferName::WaveVertices).size == WAVE_VERTEX_COUNT * 3 * 4,
        buffer_spec_of(BufferName::WaveIndices).size == WAVE_INDEX_COUNT * 4,
        buffer_spec_of(BufferName::Waves).size == MAX_WAVES * 32,
        buffer_spec_of(BufferName::Text).size == MAX_TEXT_QUADS * 48,
{
    law_wave_shell_counts();
}

/// What the program writes in every frame lies where it can write and the device sees it at
/// once; the rest lies on the device. Blocks are made for blocks, lists for lists, and the
/// shape of the shell to be copied to and drawn from.
pub proof fn law_buffers_are_made_for_their_use(slot: usize)
    ensures
        buffer_spec_of(BufferName::Camera(slot)).usage == 0x10,
        buffer_spec_of(BufferName::Camera(slot)).memory == 0x2 + 0x4,
        buffer_spec_of(BufferName::Components(slot)).usage == 0x10,
        buffer_spec_of(BufferName::Components(slot)).memory == 0x2 + 0x4,
        buffer_spec_of(BufferName::Particles).usage == 0x20,
        buffer_spec_of(BufferName::Particles).memory == 0x1,
        buffer_spec_of(BufferName::WaveVertices).usage == 0x2 + 0x80,
        buffer_spec_of(BufferName::WaveVertices).memory == 0x1,
        buffer_spec_of(BufferName::WaveIndices).usage == 0x2 + 0x40,
        buffer_spec_of(BufferName::WaveIndices).memory == 0x1,
        buffer_spec_of(BufferName::Waves).usage == 0x20,
        buffer_spec_of(BufferName::Waves).memory == 0x2 + 0x4,
        buffer_spec_of(BufferName::Text).usage == 0x20,
        buffer_spec_of(BufferName::Text).memory == 0x2 + 0x4,
{
    assert(0x2u32 | 0x4u32 == 0x6 && 0x2u32 | 0x80u32 == 0x82 && 0x2u32 | 0x40u32 == 0x42)
        by (bit_vector);
}

/// The volume has a complex number and its coarse maximum a real one for every voxel of a
/// cube, both to be written and sampled by shaders; the font has a byte for every pixel of
/// its atlas, to be copied to and sampled. All of them lie on the device.
pub proof fn law_images_are_made_for_their_use(slot: usize)
    ensures
        ({
            let volume = image_spec_of(ImageName::Volume(slot));
            let coarse = image_spec_of(ImageName::PsiMax(slot));
            let font = image_spec_of(ImageName::Font);
            &&& volume.width == 128 && volume.height == 128 && volume.depth == 128
            &&& coarse.width * 8 == volume.width && coarse.height * 8 == volume.height
                && coarse.depth * 8 == volume.depth
            &&& volume.dimensions == 2 && coarse.dimensions == 2 && font.dimensions == 1
            &&& volume.format == 103 && coarse.format == 100 && font.format == 9
            &&& volume.usage == 0x4 + 0x8 && coarse.usage == 0x4 + 0x8 && font.usage == 0x2 + 0x4
            &&& volume.memory == 1 && coarse.memory == 1 && font.memory == 1
            &&& font.width == 128 && font.height == 128 && font.depth == 1
        }),
{
    assert(0x4u32 | 0x8u32 == 0xC && 0x2u32 | 0x4u32 == 0x6) by (bit_vector);
}

/// The volume is read between its voxels, the font pixel by pixel, and neither beyond its
/// edge.
pub proof fn law_samplers_read(s: SamplerName)
    ensures
        sampler_spec_of(s).filter == if s is Volume {
            1i32
        } else {
            0i32
        },
        sampler_spec_of(s).mipmap_mode == sampler_spec_of(s).filter,
        sampler_spec_of(s).address_mode == 2,
        sampler_spec_of(s).border_color == 2,
        !sampler_spec_of(s).unnormalized_coordinates,
{
}

/// What the pool holds: twelve sets, with six images to write, six blocks, six lists and
/// twelve images to read.
pub proof fn law_pool_holds()
    ensures
        MAX_SETS == 12,
        pool_sizes_of() == seq![
            PoolSize { kind: 3, count: 6 },
            PoolSize { kind: 1, count: 12 },
            PoolSize { kind: 6, count: 6 },
            PoolSize { kind: 7, count: 6 },
        ],
{
}

/// The sizes of the picture: two frames at a time, a volume of 128 voxels along an edge,
/// eight of them to a coarse one, and thirty-two times 1024 particles.
pub proof fn law_sizes()
    ensures
        FRAMES_IN_FLIGHT == 2,
        GRID_SIZE == 128,
        COARSE_BLOCK == 8,
        COARSE_GRID_SIZE * 8 == GRID_SIZE,
        PARTICLE_COUNT == 32 * 1024,
        WAVE_SUBDIV == 2,
{
}

} // verus!
