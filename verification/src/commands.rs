//! What the command buffers of a frame hold, and what recording them comes to.

use crate::numbers::{
    ACCESS_NONE, ACCESS_SHADER_READ, ACCESS_SHADER_WRITE, FAMILY_IGNORED, LAYOUT_GENERAL,
    LAYOUT_SHADER_READ_ONLY, LAYOUT_UNDEFINED, STAGE_BOTTOM_OF_PIPE, STAGE_COMPUTE_SHADER,
    STAGE_FRAGMENT_AND_COMPUTE, STAGE_TOP_OF_PIPE,
};
use crate::resources;
use crate::resources::{
    pass_set, ImageName, Pass, SetKind, SetName, Source, COARSE_BLOCK, COARSE_GRID_SIZE, GRID_SIZE,
};
use vstd::prelude::*;

verus! {

/// An image that commands speak of: one of the viewer's own, or the one that is shown.
#[derive(Clone, Copy, PartialEq, Eq, Debug, Hash, Structural)]
pub enum Target {
    Named(ImageName),
    Swap,
}

/// Moves an image from one layout to another, and orders the work before and after.
#[derive(Clone, Copy, PartialEq, Eq, Debug, Structural)]
pub struct ImageBarrier {
    pub image: Target,
    pub old_layout: i32,
    pub new_layout: i32,
    pub src_family: u32,
    pub dst_family: u32,
    pub src_access: u32,
    pub dst_access: u32,
    pub src_stage: u32,
    pub dst_stage: u32,
}

/// Orders the work on the particles before and after.
#[derive(Clone, Copy, PartialEq, Eq, Debug, Structural)]
pub struct BufferBarrier {
    pub src_access: u32,
    pub dst_access: u32,
    pub src_stage: u32,
    pub dst_stage: u32,
}

/// The numbers that a pass is handed with its commands. Lengths, times and matrices go
/// with them as floats.
#[derive(Clone, Copy, PartialEq, Eq, Debug, Structural)]
pub enum Push {
    Mipmap { fine_grid_size: i32, coarse_grid_size: i32, block_size: i32 },
    Particles { mode: u32, seed: u32, num_particles: u32 },
    Billboards,
    Waves,
    Text { width: u32, height: u32 },
}

/// How drawing into the swapchain's image starts and ends: the size and the layout of the
/// image, what becomes of its content before and after, and the color that it is cleared
/// to, as bit patterns of floats.
#[derive(Clone, Copy, PartialEq, Eq, Debug, Structural)]
pub struct Rendering {
    pub width: u32,
    pub height: u32,
    pub layout: i32,
    pub load_op: i32,
    pub store_op: i32,
    pub clear_red: u32,
    pub clear_green: u32,
    pub clear_blue: u32,
    pub clear_alpha: u32,
}

/// One command.
#[derive(Clone, Copy, PartialEq, Eq, Debug, Structural)]
pub enum Command {
    Image(ImageBarrier),
    Particles(BufferBarrier),
    /// Binds the pipeline and the descriptor set of a pass.
    Bind(Pass),
    Push(Push),
    Dispatch { x: u32, y: u32, z: u32 },
    /// Starts to draw into the swapchain's image.
    BeginRendering(Rendering),
    Viewport { width: u32, height: u32 },
    Scissor { width: u32, height: u32 },
    Draw { vertices: u32, instances: u32 },
    /// Binds the vertices and the indices of the wave shell.
    WaveBuffers,
    DrawIndexed { indices: u32, instances: u32 },
    EndRendering,
}

/// A barrier within one queue.
pub open spec fn barrier_of(
    image: Target,
    old_layout: i32,
    new_layout: i32,
    src_access: u32,
    dst_access: u32,
    src_stage: u32,
    dst_stage: u32,
) -> ImageBarrier {
    ImageBarrier {
        image,
        old_layout,
        new_layout,
        src_family: FAMILY_IGNORED,
        dst_family: FAMILY_IGNORED,
        src_access,
        dst_access,
        src_stage,
        dst_stage,
    }
}

/// A barrier within one queue.
pub fn image_barrier(
    image: Target,
    old_layout: i32,
    new_layout: i32,
    src_access: u32,
    dst_access: u32,
    src_stage: u32,
    dst_stage: u32,
) -> (b: ImageBarrier)
    ensures
        b == barrier_of(
            image,
            old_layout,
            new_layout,
            src_access,
            dst_access,
            src_stage,
            dst_stage,
        ),
{
    ImageBarrier {
        image,
        old_layout,
        new_layout,
        src_family: FAMILY_IGNORED,
        dst_family: FAMILY_IGNORED,
        src_access,
        dst_access,
        src_stage,
        dst_stage,
    }
}

/// Gives an image up to another queue family, in the layout that it is in.
pub open spec fn release_of(
    image: Target,
    src_family: u32,
    dst_family: u32,
    layout: i32,
) -> ImageBarrier {
    ImageBarrier {
        image,
        old_layout: layout,
        new_layout: layout,
        src_family,
        dst_family,
        src_access: ACCESS_SHADER_WRITE,
        dst_access: ACCESS_NONE,
        src_stage: STAGE_COMPUTE_SHADER,
        dst_stage: STAGE_BOTTOM_OF_PIPE,
    }
}

/// Gives an image up to another queue family.
pub fn queue_family_release(image: Target, src_family: u32, dst_family: u32, layout: i32) -> (b:
    ImageBarrier)
    ensures
        b == release_of(image, src_family, dst_family, layout),
{
    ImageBarrier {
        image,
        old_layout: layout,
        new_layout: layout,
        src_family,
        dst_family,
        src_access: ACCESS_SHADER_WRITE,
        dst_access: ACCESS_NONE,
        src_stage: STAGE_COMPUTE_SHADER,
        dst_stage: STAGE_BOTTOM_OF_PIPE,
    }
}

/// Takes an image over from another queue family, in the layout that it is in.
pub open spec fn acquire_of(
    image: Target,
    src_family: u32,
    dst_family: u32,
    layout: i32,
) -> ImageBarrier {
    ImageBarrier {
        image,
        old_layout: layout,
        new_layout: layout,
        src_family,
        dst_family,
        src_access: ACCESS_NONE,
        dst_access: ACCESS_SHADER_READ,
        src_stage: STAGE_TOP_OF_PIPE,
        dst_stage: STAGE_FRAGMENT_AND_COMPUTE,
    }
}

/// Takes an image over from another queue family.
pub fn queue_family_acquire(image: Target, src_family: u32, dst_family: u32, layout: i32) -> (b:
    ImageBarrier)
    ensures
        b == acquire_of(image, src_family, dst_family, layout),
{
    ImageBarrier {
        image,
        old_layout: layout,
        new_layout: layout,
        src_family,
        dst_family,
        src_access: ACCESS_NONE,
        dst_access: ACCESS_SHADER_READ,
        src_stage: STAGE_TOP_OF_PIPE,
        dst_stage: STAGE_FRAGMENT_AND_COMPUTE,
    }
}

/// How many groups of `size` items it takes to cover `count` items.
pub open spec fn groups_for(count: int, size: int) -> int {
    (count + size - 1) / size
}

/// The groups cover all items, and none of them is empty.
pub proof fn law_groups_cover(count: int, size: int)
    requires
        0 < count,
        0 < size,
    ensures
        groups_for(count, size) * size >= count,
        (groups_for(count, size) - 1) * size < count,
{
    let g = groups_for(count, size);
    assert(g * size + (count + size - 1) % size == count + size - 1) by (nonlinear_arith)
        requires
            g == (count + size - 1) / size,
            0 < size,
    ;
    assert((count + size - 1) % size < size && (count + size - 1) % size >= 0) by (nonlinear_arith)
        requires
            0 < size,
    ;
    assert((g - 1) * size == g * size - size) by (nonlinear_arith);
}

/// The layout in which a frame's images are found by the compute work.
pub open spec fn found_layout(was_init: bool) -> i32 {
    if was_init {
        LAYOUT_SHADER_READ_ONLY
    } else {
        LAYOUT_UNDEFINED
    }
}

/// The commands that compute the volume of a frame and its density maximum.
pub open spec fn volume_work(slot: usize, was_init: bool) -> Seq<Command> {
    let volume = Target::Named(ImageName::Volume(slot));
    let psi_max = Target::Named(ImageName::PsiMax(slot));
    seq![
        Command::Image(
            barrier_of(
                volume,
                found_layout(was_init),
                LAYOUT_GENERAL,
                ACCESS_SHADER_READ,
                ACCESS_SHADER_WRITE,
                STAGE_FRAGMENT_AND_COMPUTE,
                STAGE_COMPUTE_SHADER,
            ),
        ),
        Command::Image(
            barrier_of(
                psi_max,
                found_layout(was_init),
                LAYOUT_GENERAL,
                ACCESS_SHADER_READ,
                ACCESS_SHADER_WRITE,
                STAGE_FRAGMENT_AND_COMPUTE,
                STAGE_COMPUTE_SHADER,
            ),
        ),
        Command::Bind(Pass::Wavefunction),
        Command::Dispatch {
            x: groups_for(GRID_SIZE as int, 8) as u32,
            y: groups_for(GRID_SIZE as int, 8) as u32,
            z: groups_for(GRID_SIZE as int, 8) as u32,
        },
        Command::Image(
            barrier_of(
                volume,
                LAYOUT_GENERAL,
                LAYOUT_SHADER_READ_ONLY,
                ACCESS_SHADER_WRITE,
                ACCESS_SHADER_READ,
                STAGE_COMPUTE_SHADER,
                STAGE_COMPUTE_SHADER,
            ),
        ),
        Command::Bind(Pass::Mipmap),
        Command::Push(
            Push::Mipmap {
                fine_grid_size: GRID_SIZE as i32,
                coarse_grid_size: COARSE_GRID_SIZE as i32,
                block_size: COARSE_BLOCK as i32,
            },
        ),
        Command::Dispatch {
            x: groups_for(COARSE_GRID_SIZE as int, 4) as u32,
            y: groups_for(COARSE_GRID_SIZE as int, 4) as u32,
            z: groups_for(COARSE_GRID_SIZE as int, 4) as u32,
        },
        Command::Image(
            barrier_of(
                psi_max,
                LAYOUT_GENERAL,
                LAYOUT_SHADER_READ_ONLY,
                ACCESS_SHADER_WRITE,
                ACCESS_SHADER_READ,
                STAGE_COMPUTE_SHADER,
                STAGE_FRAGMENT_AND_COMPUTE,
            ),
        ),
    ]
}

/// The commands that give a frame's images up to another queue family.
pub open spec fn release_work(slot: usize, release_to: Option<(u32, u32)>) -> Seq<Command> {
    match release_to {
        Some((src, dst)) => seq![
            Command::Image(
                release_of(
                    Target::Named(ImageName::Volume(slot)),
                    src,
                    dst,
                    LAYOUT_SHADER_READ_ONLY,
                ),
            ),
            Command::Image(
                release_of(
                    Target::Named(ImageName::PsiMax(slot)),
                    src,
                    dst,
                    LAYOUT_SHADER_READ_ONLY,
                ),
            ),
        ],
        None => Seq::empty(),
    }
}

/// The commands that take a frame's images over from another queue family.
pub open spec fn acquire_work(slot: usize, src: u32, dst: u32) -> Seq<Command> {
    seq![
        Command::Image(
            acquire_of(Target::Named(ImageName::Volume(slot)), src, dst, LAYOUT_SHADER_READ_ONLY),
        ),
        Command::Image(
            acquire_of(Target::Named(ImageName::PsiMax(slot)), src, dst, LAYOUT_SHADER_READ_ONLY),
        ),
    ]
}

/// The compute work of a frame.
pub open spec fn compute_work(
    slot: usize,
    was_init: bool,
    release_to: Option<(u32, u32)>,
) -> Seq<Command> {
    volume_work(slot, was_init) + release_work(slot, release_to)
}

/// Records the compute work of a frame: the volume, then its density maximum. Where the
/// graphics queue belongs to another family, the images are given up to it.
pub fn record_compute_work(slot: usize, was_init: bool, release_to: Option<(u32, u32)>) -> (out:
    Vec<Command>)
    ensures
        out@ == compute_work(slot, was_init, release_to),
{
    let volume = Target::Named(ImageName::Volume(slot));
    let psi_max = Target::Named(ImageName::PsiMax(slot));
    let old: i32 = if was_init {
        LAYOUT_SHADER_READ_ONLY
    } else {
        LAYOUT_UNDEFINED
    };
    let g: u32 = (GRID_SIZE + 7) / 8;
    let cg: u32 = (COARSE_GRID_SIZE + 3) / 4;
    let mut out: Vec<Command> = Vec::new();
    out.push(
        Command::Image(
            image_barrier(
                volume,
                old,
                LAYOUT_GENERAL,
                ACCESS_SHADER_READ,
                ACCESS_SHADER_WRITE,
                STAGE_FRAGMENT_AND_COMPUTE,
                STAGE_COMPUTE_SHADER,
            ),
        ),
    );
    out.push(
        Command::Image(
            image_barrier(
                psi_max,
                old,
                LAYOUT_GENERAL,
                ACCESS_SHADER_READ,
                ACCESS_SHADER_WRITE,
                STAGE_FRAGMENT_AND_COMPUTE,
                STAGE_COMPUTE_SHADER,
            ),
        ),
    );
    out.push(Command::Bind(Pass::Wavefunction));
    out.push(Command::Dispatch { x: g, y: g, z: g });
    out.push(
        Command::Image(
            image_barrier(
                volume,
                LAYOUT_GENERAL,
                LAYOUT_SHADER_READ_ONLY,
                ACCESS_SHADER_WRITE,
                ACCESS_SHADER_READ,
                STAGE_COMPUTE_SHADER,
                STAGE_COMPUTE_SHADER,
            ),
        ),
    );
    out.push(Command::Bind(Pass::Mipmap));
    out.push(
        Command::Push(
            Push::Mipmap {
                fine_grid_size: GRID_SIZE as i32,
                coarse_grid_size: COARSE_GRID_SIZE as i32,
                block_size: COARSE_BLOCK as i32,
            },
        ),
    );
    out.push(Command::Dispatch { x: cg, y: cg, z: cg });
    out.push(
        Command::Image(
            image_barrier(
                psi_max,
                LAYOUT_GENERAL,
                LAYOUT_SHADER_READ_ONLY,
                ACCESS_SHADER_WRITE,
                ACCESS_SHADER_READ,
                STAGE_COMPUTE_SHADER,
                STAGE_FRAGMENT_AND_COMPUTE,
            ),
        ),
    );
    assert(out@ =~= volume_work(slot, was_init));
    if let Some((src, dst)) = release_to {
        out.push(
            Command::Image(queue_family_release(volume, src, dst, LAYOUT_SHADER_READ_ONLY)),
        );
        out.push(
            Command::Image(queue_family_release(psi_max, src, dst, LAYOUT_SHADER_READ_ONLY)),
        );
    }
    assert(out@ =~= compute_work(slot, was_init, release_to));
    out
}

/// How far recording has come: the layouts of the images, the pass that is bound,
/// whether it was handed its numbers, and whether drawing is under way.
pub struct Recording {
    pub layouts: Map<Target, i32>,
    pub bound: Option<Pass>,
    pub pushed: bool,
    pub rendering: bool,
}

/// The descriptor set that a pass reads in a frame.
pub open spec fn set_in_frame(pass: Pass, slot: usize) -> SetName {
    SetName {
        kind: resources::set_of(pass),
        slot: if resources::is_per_frame(resources::set_of(pass)) {
            slot
        } else {
            0
        },
    }
}

/// The descriptor set that a pass reads in a frame.
pub fn frame_set(pass: Pass, slot: usize) -> (set: SetName)
    ensures
        set == set_in_frame(pass, slot),
{
    let kind = pass_set(pass);
    match kind {
        SetKind::Wavefunction | SetKind::Mipmap | SetKind::Volume => SetName { kind, slot },
        _ => SetName { kind, slot: 0 },
    }
}

/// Whether every image that a descriptor set points to is in the layout that the set
/// was filled with.
pub open spec fn images_ready(layouts: Map<Target, i32>, set: SetName) -> bool {
    forall|i: int|
        0 <= i < resources::all_writes().len() && (#[trigger] resources::all_writes()[i]).set == set
            ==> match resources::all_writes()[i].source {
            Source::Image { image, sampler, layout } => layouts[Target::Named(image)] == layout,
            Source::Buffer { buffer, range } => true,
        }
}

/// Whether the numbers are those of the pass.
pub open spec fn push_fits(pass: Pass, push: Push) -> bool {
    match push {
        Push::Mipmap { .. } => pass == Pass::Mipmap,
        Push::Particles { .. } => pass == Pass::Particles,
        Push::Billboards => pass == Pass::Billboards,
        Push::Waves => pass == Pass::Waves,
        Push::Text { .. } => pass == Pass::Text,
    }
}

/// Whether the bound pass can run: it has its numbers, and its images are ready.
pub open spec fn pass_ready(m: Recording, pass: Pass, slot: usize) -> bool {
    &&& resources::push_range_of(resources::set_of(pass)) is Some ==> m.pushed
    &&& images_ready(m.layouts, set_in_frame(pass, slot))
}

/// Whether a command may come next. A barrier names the layout that the image is in, or
/// drops what the image held. Computing happens outside of drawing, and drawing within,
/// each with a pass that was made for it and that is ready.
pub open spec fn may_follow(m: Recording, c: Command, slot: usize) -> bool {
    match c {
        Command::Image(b) => !m.rendering && (b.old_layout == LAYOUT_UNDEFINED || b.old_layout
            == m.layouts[b.image]),
        Command::Particles(_) => !m.rendering,
        Command::Bind(_) => true,
        Command::Push(push) => m.bound matches Some(pass) && push_fits(pass, push),
        Command::Dispatch { .. } => {
            &&& !m.rendering
            &&& m.bound matches Some(pass) && resources::computes(pass) && pass_ready(m, pass, slot)
        },
        Command::BeginRendering(b) => !m.rendering && m.layouts[Target::Swap] == b.layout,
        Command::Viewport { .. } => m.rendering,
        Command::Scissor { .. } => m.rendering,
        Command::Draw { .. } => {
            &&& m.rendering
            &&& m.bound matches Some(pass) && !resources::computes(pass) && pass_ready(
                m,
                pass,
                slot,
            )
        },
        Command::WaveBuffers => m.rendering,
        Command::DrawIndexed { .. } => {
            &&& m.rendering
            &&& m.bound matches Some(pass) && !resources::computes(pass) && pass_ready(
                m,
                pass,
                slot,
            )
        },
        Command::EndRendering => m.rendering,
    }
}

/// What a command changes.
pub open spec fn recorded(m: Recording, c: Command) -> Recording {
    match c {
        Command::Image(b) => Recording { layouts: m.layouts.insert(b.image, b.new_layout), ..m },
        Command::Bind(pass) => Recording { bound: Some(pass), pushed: false, ..m },
        Command::Push(_) => Recording { pushed: true, ..m },
        Command::BeginRendering(_) => Recording { rendering: true, ..m },
        Command::EndRendering => Recording { rendering: false, ..m },
        _ => m,
    }
}

/// What a list of commands changes.
pub open spec fn recorded_all(m: Recording, cs: Seq<Command>) -> Recording
    decreases cs.len(),
{
    if cs.len() == 0 {
        m
    } else {
        recorded(recorded_all(m, cs.drop_last()), cs.last())
    }
}

/// Whether a list of commands may come next, each after those before it.
pub open spec fn may_follow_all(m: Recording, cs: Seq<Command>, slot: usize) -> bool
    decreases cs.len(),
{
    cs.len() == 0 || may_follow_all(m, cs.drop_last(), slot) && may_follow(
        recorded_all(m, cs.drop_last()),
        cs.last(),
        slot,
    )
}

/// Recording one more command.
pub broadcast proof fn lemma_recorded_push(m: Recording, cs: Seq<Command>, c: Command)
    ensures
        #[trigger] recorded_all(m, cs.push(c)) == recorded(recorded_all(m, cs), c),
{
    assert(cs.push(c).drop_last() =~= cs);
}

/// One more command may follow where it may after the ones before.
pub broadcast proof fn lemma_may_follow_push(
    m: Recording,
    cs: Seq<Command>,
    c: Command,
    slot: usize,
)
    ensures
        #[trigger] may_follow_all(m, cs.push(c), slot) <==> may_follow_all(m, cs, slot)
            && may_follow(recorded_all(m, cs), c, slot),
{
    assert(cs.push(c).drop_last() =~= cs);
}

/// Recording two lists is recording one after the other.
pub proof fn lemma_recorded_concat(m: Recording, a: Seq<Command>, b: Seq<Command>, slot: usize)
    ensures
        recorded_all(m, a + b) == recorded_all(recorded_all(m, a), b),
        may_follow_all(m, a + b, slot) <==> may_follow_all(m, a, slot) && may_follow_all(
            recorded_all(m, a),
            b,
            slot,
        ),
    decreases b.len(),
{
    if b.len() == 0 {
        assert(a + b =~= a);
    } else {
        lemma_recorded_concat(m, a, b.drop_last(), slot);
        assert((a + b).drop_last() =~= a + b.drop_last());
        assert((a + b).last() == b.last());
    }
}

/// What the descriptor writes say of the images that a pass reads.
pub proof fn lemma_images_ready(layouts: Map<Target, i32>, pass: Pass, slot: usize)
    requires
        slot < 2,
    ensures
        images_ready(layouts, set_in_frame(pass, slot)) <==> match pass {
            Pass::Wavefunction => layouts[Target::Named(ImageName::Volume(slot))] == LAYOUT_GENERAL,
            Pass::Mipmap => layouts[Target::Named(ImageName::Volume(slot))]
                == LAYOUT_SHADER_READ_ONLY && layouts[Target::Named(ImageName::PsiMax(slot))]
                == LAYOUT_GENERAL,
            Pass::Particles => layouts[Target::Named(ImageName::Volume(0))]
                == LAYOUT_SHADER_READ_ONLY,
            Pass::Raymarch => layouts[Target::Named(ImageName::Volume(slot))]
                == LAYOUT_SHADER_READ_ONLY && layouts[Target::Named(ImageName::PsiMax(slot))]
                == LAYOUT_SHADER_READ_ONLY,
            Pass::Heatmap => layouts[Target::Named(ImageName::Volume(slot))]
                == LAYOUT_SHADER_READ_ONLY && layouts[Target::Named(ImageName::PsiMax(slot))]
                == LAYOUT_SHADER_READ_ONLY,
            Pass::Billboards => layouts[Target::Named(ImageName::Volume(0))]
                == LAYOUT_SHADER_READ_ONLY,
            Pass::Waves => true,
            Pass::Text => layouts[Target::Named(ImageName::Font)] == LAYOUT_SHADER_READ_ONLY,
        },
{
    let all = resources::all_writes();
    let set = set_in_frame(pass, slot);
    assert(all.len() == 22);
    assert forall|i: int| 0 <= i < all.len() && (#[trigger] all[i]).set == set implies (match pass {
        Pass::Wavefunction => i == 7 * slot || i == 7 * slot + 1,
        Pass::Mipmap => i == 7 * slot + 2 || i == 7 * slot + 3,
        Pass::Particles => i == 14 || i == 15,
        Pass::Raymarch => i == 7 * slot + 4 || i == 7 * slot + 5 || i == 7 * slot + 6,
        Pass::Heatmap => i == 7 * slot + 4 || i == 7 * slot + 5 || i == 7 * slot + 6,
        Pass::Billboards => i == 16 || i == 17 || i == 18,
        Pass::Waves => i == 19,
        Pass::Text => i == 20 || i == 21,
    }) by {
        assert(i == 0 || i == 1 || i == 2 || i == 3 || i == 4 || i == 5 || i == 6 || i == 7 || i
            == 8 || i == 9 || i == 10 || i == 11 || i == 12 || i == 13 || i == 14 || i == 15 || i
            == 16 || i == 17 || i == 18 || i == 19 || i == 20 || i == 21);
    }
    assert(all[7 * slot] == resources::frame_writes_of(slot)[0]);
    assert(all[7 * slot + 1] == resources::frame_writes_of(slot)[1]);
    assert(all[7 * slot + 2] == resources::frame_writes_of(slot)[2]);
    assert(all[7 * slot + 3] == resources::frame_writes_of(slot)[3]);
    assert(all[7 * slot + 4] == resources::frame_writes_of(slot)[4]);
    assert(all[7 * slot + 5] == resources::frame_writes_of(slot)[5]);
    assert(all[7 * slot + 6] == resources::frame_writes_of(slot)[6]);
    assert(all[14] == resources::particle_writes_of()[0]);
    assert(all[15] == resources::particle_writes_of()[1]);
    assert(all[16] == resources::particle_writes_of()[2]);
    assert(all[17] == resources::particle_writes_of()[3]);
    assert(all[18] == resources::particle_writes_of()[4]);
    assert(all[19] == resources::wave_writes_of()[0]);
    assert(all[20] == resources::text_writes_of()[0]);
    assert(all[21] == resources::text_writes_of()[1]);
}

/// The compute work may be recorded wherever nothing is being drawn, as long as it is
/// told the truth about the images' first use. Whatever layouts it finds, it leaves the
/// volume and the density maximum ready to be read, and no other image touched.
pub proof fn law_compute_work_leaves_images_readable(
    m: Recording,
    slot: usize,
    was_init: bool,
    release_to: Option<(u32, u32)>,
)
    requires
        slot < 2,
        !m.rendering,
        was_init ==> m.layouts[Target::Named(ImageName::Volume(slot))] == LAYOUT_SHADER_READ_ONLY,
        was_init ==> m.layouts[Target::Named(ImageName::PsiMax(slot))] == LAYOUT_SHADER_READ_ONLY,
    ensures
        may_follow_all(m, compute_work(slot, was_init, release_to), slot),
        ({
            let after = recorded_all(m, compute_work(slot, was_init, release_to));
            &&& !after.rendering
            &&& after.layouts[Target::Named(ImageName::Volume(slot))] == LAYOUT_SHADER_READ_ONLY
            &&& after.layouts[Target::Named(ImageName::PsiMax(slot))] == LAYOUT_SHADER_READ_ONLY
            &&& forall|t: Target|
                t != Target::Named(ImageName::Volume(slot)) && t != Target::Named(
                    ImageName::PsiMax(slot),
                ) ==> #[trigger] after.layouts[t] == m.layouts[t]
        }),
{
    broadcast use lemma_recorded_push, lemma_may_follow_push;

    let first = volume_work(slot, was_init);
    let mid = recorded_all(m, first);
    lemma_recorded_concat(m, first, release_work(slot, release_to), slot);
    let volume = Target::Named(ImageName::Volume(slot));
    let psi_max = Target::Named(ImageName::PsiMax(slot));
    let general = m.layouts.insert(volume, LAYOUT_GENERAL).insert(psi_max, LAYOUT_GENERAL);
    lemma_images_ready(general, Pass::Wavefunction, slot);
    lemma_images_ready(general.insert(volume, LAYOUT_SHADER_READ_ONLY), Pass::Mipmap, slot);
    let s0 = Seq::<Command>::empty();
    let s1 = s0.push(first[0]);
    let s2 = s1.push(first[1]);
    let s3 = s2.push(first[2]);
    let s4 = s3.push(first[3]);
    let s5 = s4.push(first[4]);
    let s6 = s5.push(first[5]);
    let s7 = s6.push(first[6]);
    let s8 = s7.push(first[7]);
    let s9 = s8.push(first[8]);
    assert(first =~= s9);
    assert(may_follow_all(m, s3, slot));
    assert(recorded_all(m, s3).layouts == general);
    assert(may_follow_all(m, s4, slot));
    assert(may_follow_all(m, s5, slot));
    assert(may_follow_all(m, s6, slot));
    assert(may_follow_all(m, s7, slot));
    assert(may_follow_all(m, s8, slot));
    assert(may_follow_all(m, s9, slot));
    if release_to is Some {
        let last = release_work(slot, release_to);
        let l1 = s0.push(last[0]);
        let l2 = l1.push(last[1]);
        assert(last =~= l2);
        assert(may_follow_all(mid, l1, slot));
        assert(may_follow_all(mid, l2, slot));
    }
}

/// A released image is taken over by a barrier that names the same image, families and
/// layout, and nothing is lost on the way: what the release makes available is what
/// compute shaders wrote.
pub proof fn law_release_meets_acquire(slot: usize, src: u32, dst: u32, k: int)
    requires
        0 <= k < 2,
    ensures
        release_work(slot, Some((src, dst))).len() == acquire_work(slot, src, dst).len() == 2,
        release_work(slot, Some((src, dst)))[k] matches Command::Image(r) && acquire_work(
            slot,
            src,
            dst,
        )[k] matches Command::Image(a) && r.image == a.image && r.old_layout == a.old_layout
            && r.new_layout == a.new_layout && r.src_family == a.src_family == src && r.dst_family
            == a.dst_family == dst && r.src_access == ACCESS_SHADER_WRITE && a.dst_access
            == ACCESS_SHADER_READ,
{
}

/// A barrier within one queue is for the image, from and to the layouts, and between the
/// accesses and stages that it was asked for, and changes no owner.
pub proof fn law_barrier_is_what_was_asked_for(
    image: Target,
    old_layout: i32,
    new_layout: i32,
    src_access: u32,
    dst_access: u32,
    src_stage: u32,
    dst_stage: u32,
)
    ensures
        ({
            let b = barrier_of(
                image,
                old_layout,
                new_layout,
                src_access,
                dst_access,
                src_stage,
                dst_stage,
            );
            &&& b.image == image
            &&& b.old_layout == old_layout && b.new_layout == new_layout
            &&& b.src_access == src_access && b.dst_access == dst_access
            &&& b.src_stage == src_stage && b.dst_stage == dst_stage
            &&& b.src_family == 0xFFFF_FFFF && b.dst_family == 0xFFFF_FFFF
        }),
{
}

/// Giving an image up and taking it over leave its layout alone and name the same owners.
/// What compute shaders wrote is given up after they are done; fragment and compute
/// shaders read it only once it was taken over.
pub proof fn law_owners_change_in_two_halves(image: Target, src: u32, dst: u32, layout: i32)
    ensures
        ({
            let given = release_of(image, src, dst, layout);
            let taken = acquire_of(image, src, dst, layout);
            &&& given.image == image && taken.image == image
            &&& given.old_layout == layout && given.new_layout == layout
            &&& taken.old_layout == layout && taken.new_layout == layout
            &&& given.src_family == src && given.dst_family == dst
            &&& taken.src_family == src && taken.dst_family == dst
            &&& given.src_access == 0x40 && given.src_stage == 0x800
            &&& given.dst_access == 0 && given.dst_stage == 0x2000
            &&& taken.src_access == 0 && taken.src_stage == 0x1
            &&& taken.dst_access == 0x20 && taken.dst_stage == 0x80 + 0x800
        }),
{
}

/// The compute work touches the two images of its slot alone. It takes each of them to be
/// written from the layout that it was left in, or from none where it was never computed,
/// and leaves each of them to be read.
pub proof fn law_compute_work_keeps_to_its_images(
    slot: usize,
    was_init: bool,
    release_to: Option<(u32, u32)>,
    i: int,
    b: ImageBarrier,
)
    requires
        0 <= i < compute_work(slot, was_init, release_to).len(),
        compute_work(slot, was_init, release_to)[i] == Command::Image(b),
    ensures
        b.image == Target::Named(ImageName::Volume(slot)) || b.image == Target::Named(
            ImageName::PsiMax(slot),
        ),
        b.new_layout == 1 ==> b.old_layout == if was_init {
            5i32
        } else {
            0i32
        },
        b.new_layout != 1 ==> b.new_layout == 5 && (b.old_layout == 1 || b.old_layout == 5),
        b.old_layout == 5 && b.new_layout == 5 <==> i >= 9,
        i >= 9 ==> release_to == Some((b.src_family, b.dst_family)),
        i < 9 ==> b.src_family == 0xFFFF_FFFF && b.dst_family == 0xFFFF_FFFF,
{
    let first = volume_work(slot, was_init);
    if i < 9 {
        assert(compute_work(slot, was_init, release_to)[i] == first[i]);
        assert(i == 0 || i == 1 || i == 2 || i == 3 || i == 4 || i == 5 || i == 6 || i == 7 || i
            == 8);
    } else {
        assert(compute_work(slot, was_init, release_to)[i] == release_work(slot, release_to)[i
            - 9]);
    }
}

/// How many commands the compute work has: nine, and two more where the images are given
/// up.
pub proof fn law_compute_work_length(slot: usize, was_init: bool, release_to: Option<(u32, u32)>)
    ensures
        compute_work(slot, was_init, release_to).len() == if release_to is Some {
            11int
        } else {
            9
        },
{
}

/// In a frame, a pass reads the set of its own kind: its slot's where every slot has one,
/// else the one that all share.
pub proof fn law_passes_read_their_slot(pass: Pass, slot: usize)
    ensures
        set_in_frame(pass, slot).kind == resources::set_of(pass),
        set_in_frame(pass, slot).slot == if pass is Wavefunction || pass is Mipmap
            || pass is Raymarch || pass is Heatmap {
            slot
        } else {
            0
        },
{
}

} // verus!
