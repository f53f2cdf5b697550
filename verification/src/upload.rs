//! Filling a buffer or an image on the device once, by way of memory that the host can
//! write to.

use crate::commands;
use crate::commands::{image_barrier, ImageBarrier, Target};
use crate::font;
use crate::gpu;
use crate::gpu::{MEMORY_HOST_COHERENT, MEMORY_HOST_VISIBLE};
use crate::numbers::{
    ACCESS_NONE, ACCESS_SHADER_READ, ACCESS_TRANSFER_WRITE, BUFFER_INDEX, BUFFER_TRANSFER_DST,
    BUFFER_TRANSFER_SRC, BUFFER_VERTEX, FORMAT_R8_UNORM, IMAGE_SAMPLED, IMAGE_TRANSFER_DST,
    LAYOUT_SHADER_READ_ONLY, LAYOUT_TRANSFER_DST, LAYOUT_UNDEFINED, STAGE_FRAGMENT_SHADER,
    STAGE_TOP_OF_PIPE, STAGE_TRANSFER,
};
use crate::resources;
use crate::resources::{buffer_spec, image_spec, BufferName, ImageName};
use vstd::prelude::*;

verus! {

/// A step of filling a buffer or an image.
#[derive(Clone, Copy, PartialEq, Eq, Debug, Structural)]
pub enum UploadStep {
    CreateStaging { size: u64, usage: u32 },
    AllocateStaging { memory: u32 },
    /// Maps the staging memory and copies the data to it.
    MapAndCopy { size: u64 },
    UnmapStaging,
    CreateTarget,
    AllocateTarget { memory: u32 },
    CreatePool,
    BeginCommands,
    CopyToBuffer { size: u64 },
    Barrier(ImageBarrier),
    CopyToImage { width: u32, height: u32, depth: u32 },
    EndCommands,
    /// Hands the commands to the queue and waits until they are done.
    SubmitAndWait,
    DestroyPool,
    DestroyStaging,
    FreeStaging,
    CreateView,
}

/// The steps that fill a buffer.
pub open spec fn buffer_upload(b: BufferName) -> Seq<UploadStep> {
    let made = resources::buffer_spec_of(b);
    seq![
        UploadStep::CreateStaging { size: made.size, usage: BUFFER_TRANSFER_SRC },
        UploadStep::AllocateStaging { memory: MEMORY_HOST_VISIBLE | MEMORY_HOST_COHERENT },
        UploadStep::MapAndCopy { size: made.size },
        UploadStep::UnmapStaging,
        UploadStep::CreateTarget,
        UploadStep::AllocateTarget { memory: made.memory },
        UploadStep::CreatePool,
        UploadStep::BeginCommands,
        UploadStep::CopyToBuffer { size: made.size },
        UploadStep::EndCommands,
        UploadStep::SubmitAndWait,
        UploadStep::DestroyPool,
        UploadStep::DestroyStaging,
        UploadStep::FreeStaging,
    ]
}

/// The steps that fill an image with `size` bytes.
pub open spec fn image_upload(i: ImageName, size: u64) -> Seq<UploadStep> {
    let made = resources::image_spec_of(i);
    seq![
        UploadStep::CreateStaging { size, usage: BUFFER_TRANSFER_SRC },
        UploadStep::AllocateStaging { memory: MEMORY_HOST_VISIBLE | MEMORY_HOST_COHERENT },
        UploadStep::MapAndCopy { size },
        UploadStep::UnmapStaging,
        UploadStep::CreateTarget,
        UploadStep::AllocateTarget { memory: made.memory },
        UploadStep::CreatePool,
        UploadStep::BeginCommands,
        UploadStep::Barrier(
            commands::barrier_of(
                Target::Named(i),
                LAYOUT_UNDEFINED,
                LAYOUT_TRANSFER_DST,
                ACCESS_NONE,
                ACCESS_TRANSFER_WRITE,
                STAGE_TOP_OF_PIPE,
                STAGE_TRANSFER,
            ),
        ),
        UploadStep::CopyToImage { width: made.width, height: made.height, depth: 1 },
        UploadStep::Barrier(
            commands::barrier_of(
                Target::Named(i),
                LAYOUT_TRANSFER_DST,
                LAYOUT_SHADER_READ_ONLY,
                ACCESS_TRANSFER_WRITE,
                ACCESS_SHADER_READ,
                STAGE_TRANSFER,
                STAGE_FRAGMENT_SHADER,
            ),
        ),
        UploadStep::EndCommands,
        UploadStep::SubmitAndWait,
        UploadStep::DestroyPool,
        UploadStep::DestroyStaging,
        UploadStep::FreeStaging,
        UploadStep::CreateView,
    ]
}

/// The steps that fill a buffer.
pub fn create_device_buffer_with_data(b: BufferName) -> (out: Vec<UploadStep>)
    ensures
        out@ == buffer_upload(b),
{
    let made = buffer_spec(b);
    let out = vec![
        UploadStep::CreateStaging { size: made.size, usage: BUFFER_TRANSFER_SRC },
        UploadStep::AllocateStaging { memory: MEMORY_HOST_VISIBLE | MEMORY_HOST_COHERENT },
        UploadStep::MapAndCopy { size: made.size },
        UploadStep::UnmapStaging,
        UploadStep::CreateTarget,
        UploadStep::AllocateTarget { memory: made.memory },
        UploadStep::CreatePool,
        UploadStep::BeginCommands,
        UploadStep::CopyToBuffer { size: made.size },
        UploadStep::EndCommands,
        UploadStep::SubmitAndWait,
        UploadStep::DestroyPool,
        UploadStep::DestroyStaging,
        UploadStep::FreeStaging,
    ];
    assert(out@ =~= buffer_upload(b));
    out
}

/// The steps that fill an image with `size` bytes.
pub fn create_device_image_2d_with_data(i: ImageName, size: u64) -> (out: Vec<UploadStep>)
    ensures
        out@ == image_upload(i, size),
{
    let made = image_spec(i);
    let out = vec![
        UploadStep::CreateStaging { size, usage: BUFFER_TRANSFER_SRC },
        UploadStep::AllocateStaging { memory: MEMORY_HOST_VISIBLE | MEMORY_HOST_COHERENT },
        UploadStep::MapAndCopy { size },
        UploadStep::UnmapStaging,
        UploadStep::CreateTarget,
        UploadStep::AllocateTarget { memory: made.memory },
        UploadStep::CreatePool,
        UploadStep::BeginCommands,
        UploadStep::Barrier(
            image_barrier(
                Target::Named(i),
                LAYOUT_UNDEFINED,
                LAYOUT_TRANSFER_DST,
                ACCESS_NONE,
                ACCESS_TRANSFER_WRITE,
                STAGE_TOP_OF_PIPE,
                STAGE_TRANSFER,
            ),
        ),
        UploadStep::CopyToImage { width: made.width, height: made.height, depth: 1 },
        UploadStep::Barrier(
            image_barrier(
                Target::Named(i),
                LAYOUT_TRANSFER_DST,
                LAYOUT_SHADER_READ_ONLY,
                ACCESS_TRANSFER_WRITE,
                ACCESS_SHADER_READ,
                STAGE_TRANSFER,
                STAGE_FRAGMENT_SHADER,
            ),
        ),
        UploadStep::EndCommands,
        UploadStep::SubmitAndWait,
        UploadStep::DestroyPool,
        UploadStep::DestroyStaging,
        UploadStep::FreeStaging,
        UploadStep::CreateView,
    ];
    assert(out@ =~= image_upload(i, size));
    out
}

/// How far an upload has come.
pub struct Progress {
    pub staging: bool,
    pub staging_memory: bool,
    pub mapped: bool,
    pub filled: bool,
    pub target: bool,
    pub target_memory: bool,
    pub pool: bool,
    pub recording: bool,
    pub copy_recorded: bool,
    pub done: bool,
    pub view: bool,
    /// The layout of the target, where it is an image.
    pub layout: i32,
}

/// An upload that has not begun.
pub open spec fn nothing_done() -> Progress {
    Progress {
        staging: false,
        staging_memory: false,
        mapped: false,
        filled: false,
        target: false,
        target_memory: false,
        pool: false,
        recording: false,
        copy_recorded: false,
        done: false,
        view: false,
        layout: LAYOUT_UNDEFINED,
    }
}

/// Whether a step may come next: the data is copied to memory that is there, the device
/// copies from staging memory that was filled to a target that has memory, and nothing
/// goes while the device may still use it.
pub open spec fn may_go_on(p: Progress, step: UploadStep) -> bool {
    match step {
        UploadStep::CreateStaging { .. } => !p.staging,
        UploadStep::AllocateStaging { .. } => p.staging && !p.staging_memory,
        UploadStep::MapAndCopy { .. } => p.staging_memory && !p.mapped,
        UploadStep::UnmapStaging => p.mapped,
        UploadStep::CreateTarget => !p.target,
        UploadStep::AllocateTarget { .. } => p.target && !p.target_memory,
        UploadStep::CreatePool => !p.pool,
        UploadStep::BeginCommands => p.pool && !p.recording,
        UploadStep::CopyToBuffer { .. } => p.recording && p.filled && !p.mapped && p.target_memory,
        UploadStep::Barrier(b) => p.recording && p.target_memory && b.old_layout == p.layout,
        UploadStep::CopyToImage { .. } => p.recording && p.filled && !p.mapped && p.target_memory
            && p.layout == LAYOUT_TRANSFER_DST,
        UploadStep::EndCommands => p.recording,
        UploadStep::SubmitAndWait => p.pool && !p.recording && p.copy_recorded,
        UploadStep::DestroyPool => p.pool && p.done,
        UploadStep::DestroyStaging => p.staging && p.done,
        UploadStep::FreeStaging => p.staging_memory && !p.staging && !p.mapped && p.done,
        UploadStep::CreateView => p.target_memory && !p.view,
    }
}

/// What a step changes.
pub open spec fn gone_on(p: Progress, step: UploadStep) -> Progress {
    match step {
        UploadStep::CreateStaging { .. } => Progress { staging: true, ..p },
        UploadStep::AllocateStaging { .. } => Progress { staging_memory: true, ..p },
        UploadStep::MapAndCopy { .. } => Progress { mapped: true, filled: true, ..p },
        UploadStep::UnmapStaging => Progress { mapped: false, ..p },
        UploadStep::CreateTarget => Progress { target: true, ..p },
        UploadStep::AllocateTarget { .. } => Progress { target_memory: true, ..p },
        UploadStep::CreatePool => Progress { pool: true, ..p },
        UploadStep::BeginCommands => Progress { recording: true, ..p },
        UploadStep::CopyToBuffer { .. } => Progress { copy_recorded: true, ..p },
        UploadStep::Barrier(b) => Progress { layout: b.new_layout, ..p },
        UploadStep::CopyToImage { .. } => Progress { copy_recorded: true, ..p },
        UploadStep::EndCommands => Progress { recording: false, ..p },
        UploadStep::SubmitAndWait => Progress { done: true, ..p },
        UploadStep::DestroyPool => Progress { pool: false, ..p },
        UploadStep::DestroyStaging => Progress { staging: false, ..p },
        UploadStep::FreeStaging => Progress { staging_memory: false, ..p },
        UploadStep::CreateView => Progress { view: true, ..p },
    }
}

/// What a list of steps changes.
pub open spec fn gone_on_all(p: Progress, steps: Seq<UploadStep>) -> Progress
    decreases steps.len(),
{
    if steps.len() == 0 {
        p
    } else {
        gone_on(gone_on_all(p, steps.drop_last()), steps.last())
    }
}

/// Whether a list of steps may come next, each after those before it.
pub open spec fn may_go_on_all(p: Progress, steps: Seq<UploadStep>) -> bool
    decreases steps.len(),
{
    steps.len() == 0 || may_go_on_all(p, steps.drop_last()) && may_go_on(
        gone_on_all(p, steps.drop_last()),
        steps.last(),
    )
}

broadcast proof fn lemma_gone_on_push(p: Progress, steps: Seq<UploadStep>, step: UploadStep)
    ensures
        #[trigger] gone_on_all(p, steps.push(step)) == gone_on(gone_on_all(p, steps), step),
{
    assert(steps.push(step).drop_last() =~= steps);
}

broadcast proof fn lemma_may_go_on_push(p: Progress, steps: Seq<UploadStep>, step: UploadStep)
    ensures
        #[trigger] may_go_on_all(p, steps.push(step)) <==> may_go_on_all(p, steps) && may_go_on(
            gone_on_all(p, steps),
            step,
        ),
{
    assert(steps.push(step).drop_last() =~= steps);
}

/// Filling a buffer takes its steps in order, fills it, and leaves nothing of what it
/// needed on the way.
pub proof fn law_buffer_upload_cleans_up(b: BufferName)
    ensures
        may_go_on_all(nothing_done(), buffer_upload(b)),
        gone_on_all(nothing_done(), buffer_upload(b)) == (Progress {
            filled: true,
            target: true,
            target_memory: true,
            copy_recorded: true,
            done: true,
            ..nothing_done()
        }),
{
    broadcast use lemma_gone_on_push, lemma_may_go_on_push;

    let first = nothing_done();
    let steps = buffer_upload(b);
    let s0 = Seq::<UploadStep>::empty();
    let s1 = s0.push(steps[0]);
    let s2 = s1.push(steps[1]);
    let s3 = s2.push(steps[2]);
    let s4 = s3.push(steps[3]);
    let s5 = s4.push(steps[4]);
    let s6 = s5.push(steps[5]);
    let s7 = s6.push(steps[6]);
    let s8 = s7.push(steps[7]);
    let s9 = s8.push(steps[8]);
    let s10 = s9.push(steps[9]);
    let s11 = s10.push(steps[10]);
    let s12 = s11.push(steps[11]);
    let s13 = s12.push(steps[12]);
    let s14 = s13.push(steps[13]);
    assert(steps =~= s14);
    assert(may_go_on_all(first, s1));
    assert(may_go_on_all(first, s2));
    assert(may_go_on_all(first, s3));
    assert(may_go_on_all(first, s4));
    assert(may_go_on_all(first, s5));
    assert(may_go_on_all(first, s6));
    assert(may_go_on_all(first, s7));
    assert(may_go_on_all(first, s8));
    assert(may_go_on_all(first, s9));
    assert(may_go_on_all(first, s10));
    assert(may_go_on_all(first, s11));
    assert(may_go_on_all(first, s12));
    assert(may_go_on_all(first, s13));
    assert(may_go_on_all(first, s14));
}

/// Filling an image takes its steps in order, fills it, leaves nothing of what it needed
/// on the way, and leaves the image ready to be read by shaders.
pub proof fn law_image_upload_leaves_image_readable(i: ImageName, size: u64)
    ensures
        may_go_on_all(nothing_done(), image_upload(i, size)),
        gone_on_all(nothing_done(), image_upload(i, size)) == (Progress {
            filled: true,
            target: true,
            target_memory: true,
            copy_recorded: true,
            done: true,
            view: true,
            layout: LAYOUT_SHADER_READ_ONLY,
            ..nothing_done()
        }),
{
    broadcast use lemma_gone_on_push, lemma_may_go_on_push;

    let first = nothing_done();
    let steps = image_upload(i, size);
    let s0 = Seq::<UploadStep>::empty();
    let s1 = s0.push(steps[0]);
    let s2 = s1.push(steps[1]);
    let s3 = s2.push(steps[2]);
    let s4 = s3.push(steps[3]);
    let s5 = s4.push(steps[4]);
    let s6 = s5.push(steps[5]);
    let s7 = s6.push(steps[6]);
    let s8 = s7.push(steps[7]);
    let s9 = s8.push(steps[8]);
    let s10 = s9.push(steps[9]);
    let s11 = s10.push(steps[10]);
    let s12 = s11.push(steps[11]);
    let s13 = s12.push(steps[12]);
    let s14 = s13.push(steps[13]);
    let s15 = s14.push(steps[14]);
    let s16 = s15.push(steps[15]);
    let s17 = s16.push(steps[16]);
    assert(steps =~= s17);
    assert(may_go_on_all(first, s1));
    assert(may_go_on_all(first, s2));
    assert(may_go_on_all(first, s3));
    assert(may_go_on_all(first, s4));
    assert(may_go_on_all(first, s5));
    assert(may_go_on_all(first, s6));
    assert(may_go_on_all(first, s7));
    assert(may_go_on_all(first, s8));
    assert(may_go_on_all(first, s9));
    assert(may_go_on_all(first, s10));
    assert(may_go_on_all(first, s11));
    assert(may_go_on_all(first, s12));
    assert(may_go_on_all(first, s13));
    assert(may_go_on_all(first, s14));
    assert(may_go_on_all(first, s15));
    assert(may_go_on_all(first, s16));
    assert(may_go_on_all(first, s17));
}

/// The font atlas fills its image: one byte for each pixel.
pub proof fn law_font_atlas_fills_its_image(table: Seq<Seq<u8>>)
    ensures
        ({
            let made = resources::image_spec_of(ImageName::Font);
            &&& font::font_atlas(table).len() == made.width * made.height
            &&& made.depth == 1
            &&& made.format == FORMAT_R8_UNORM
        }),
{
}

/// What is filled this way was made to be copied to.
pub proof fn law_targets_can_be_copied_to()
    ensures
        gpu::has_bits(
            resources::buffer_spec_of(BufferName::WaveVertices).usage,
            BUFFER_TRANSFER_DST,
        ),
        gpu::has_bits(
            resources::buffer_spec_of(BufferName::WaveIndices).usage,
            BUFFER_TRANSFER_DST,
        ),
        gpu::has_bits(resources::image_spec_of(ImageName::Font).usage, IMAGE_TRANSFER_DST),
{
    assert((BUFFER_TRANSFER_DST | BUFFER_VERTEX) & BUFFER_TRANSFER_DST == BUFFER_TRANSFER_DST)
        by (bit_vector);
    assert((BUFFER_TRANSFER_DST | BUFFER_INDEX) & BUFFER_TRANSFER_DST == BUFFER_TRANSFER_DST)
        by (bit_vector);
    assert((IMAGE_TRANSFER_DST | IMAGE_SAMPLED) & IMAGE_TRANSFER_DST == IMAGE_TRANSFER_DST)
        by (bit_vector);
}

/// Whether a step of filling a buffer moves all of the buffer's bytes, through memory that
/// the host can write and the device sees at once, to memory as the buffer was made for.
pub open spec fn moves_all(step: UploadStep, made: resources::BufferSpec) -> bool {
    match step {
        UploadStep::CreateStaging { size, usage } => size == made.size && usage == 0x1,
        UploadStep::AllocateStaging { memory } => memory == 0x2 + 0x4,
        UploadStep::MapAndCopy { size } => size == made.size,
        UploadStep::AllocateTarget { memory } => memory == made.memory,
        UploadStep::CopyToBuffer { size } => size == made.size,
        UploadStep::Barrier(_) => false,
        UploadStep::CopyToImage { .. } => false,
        UploadStep::CreateView => false,
        _ => true,
    }
}

/// Filling a buffer moves all of its bytes.
pub proof fn law_buffer_upload_moves_all(b: BufferName, i: int)
    requires
        0 <= i < buffer_upload(b).len(),
    ensures
        moves_all(buffer_upload(b)[i], resources::buffer_spec_of(b)),
{
    assert(0x2u32 | 0x4u32 == 0x6) by (bit_vector);
    assert(i == 0 || i == 1 || i == 2 || i == 3 || i == 4 || i == 5 || i == 6 || i == 7 || i == 8
        || i == 9 || i == 10 || i == 11 || i == 12 || i == 13);
}

/// Whether a step of filling an image moves all of its pixels: the bytes that it is handed
/// go to the whole of the image, which is made ready for the copy before, and for the
/// fragment shader after.
pub open spec fn moves_picture(
    step: UploadStep,
    i: ImageName,
    made: resources::ImageSpec,
    bytes: u64,
) -> bool {
    match step {
        UploadStep::CreateStaging { size, usage } => size == bytes && usage == 0x1,
        UploadStep::AllocateStaging { memory } => memory == 0x2 + 0x4,
        UploadStep::MapAndCopy { size } => size == bytes,
        UploadStep::AllocateTarget { memory } => memory == made.memory,
        UploadStep::CopyToImage { width, height, depth } => width == made.width && height
            == made.height && depth == 1,
        UploadStep::Barrier(b) => {
            &&& b.image == Target::Named(i)
            &&& b.src_family == 0xFFFF_FFFF && b.dst_family == 0xFFFF_FFFF
            &&& if b.new_layout == 7 {
                &&& b.old_layout == 0 && b.src_access == 0 && b.src_stage == 0x1
                &&& b.dst_access == 0x1000 && b.dst_stage == 0x1000
            } else {
                &&& b.old_layout == 7 && b.new_layout == 5
                &&& b.src_access == 0x1000 && b.src_stage == 0x1000
                &&& b.dst_access == 0x20 && b.dst_stage == 0x80
            }
        },
        UploadStep::CopyToBuffer { .. } => false,
        _ => true,
    }
}

/// Filling an image moves all of its pixels.
pub proof fn law_image_upload_moves_all(name: ImageName, bytes: u64, i: int)
    requires
        0 <= i < image_upload(name, bytes).len(),
    ensures
        moves_picture(
            image_upload(name, bytes)[i],
            name,
            resources::image_spec_of(name),
            bytes,
        ),
{
    assert(0x2u32 | 0x4u32 == 0x6) by (bit_vector);
    assert(i == 0 || i == 1 || i == 2 || i == 3 || i == 4 || i == 5 || i == 6 || i == 7 || i == 8
        || i == 9 || i == 10 || i == 11 || i == 12 || i == 13 || i == 14 || i == 15 || i == 16);
}

} // verus!
