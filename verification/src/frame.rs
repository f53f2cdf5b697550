//! The work that a frame comes to: what is written for the shaders, what the command
//! buffers hold, and what the submissions wait for.

use crate::commands;
use crate::commands::{
    image_barrier, queue_family_acquire, record_compute_work, BufferBarrier, Command, Push,
    Rendering, Target,
};
use crate::device::DeviceCaps;
use crate::floats::{ONE_BITS, ZERO_BITS};
use crate::numbers::{
    ACCESS_COLOR_ATTACHMENT_WRITE, ACCESS_NONE, ACCESS_SHADER_READ, ACCESS_SHADER_WRITE,
    LAYOUT_COLOR_ATTACHMENT, LAYOUT_PRESENT_SRC, LAYOUT_SHADER_READ_ONLY, LAYOUT_UNDEFINED,
    LOAD_CLEAR, SHADER_COMPUTE, SHADER_FRAGMENT, SHADER_VERTEX, STAGE_BOTTOM_OF_PIPE,
    STAGE_COLOR_ATTACHMENT_OUTPUT, STAGE_COMPUTE_SHADER, STAGE_FRAGMENT_AND_COMPUTE,
    STAGE_FRAGMENT_SHADER, STAGE_TOP_OF_PIPE, STAGE_VERTEX_SHADER, STORE_STORE,
};
use crate::overlay;
use crate::overlay::{build_overlay_text_quads, TextQuad, MAX_LINE_BYTES, SHOWN_NAME_BYTES};
use crate::presets::{OrbitalComponent, MAX_COMPONENTS};
use crate::renderer;
use crate::renderer::{ColorMode, RendererModel, SliceAxis, ViewMode, VulkanRenderer};
use crate::resources;
use crate::resources::{
    DescriptorWrite, ImageName, Pass, Source, COARSE_GRID_SIZE, FRAMES_IN_FLIGHT, GRID_SIZE,
    PARTICLE_COUNT, WAVE_INDEX_COUNT,
};
use crate::swapchain::Extent;
use crate::waves;
use crate::waves::{advance, rows, WaveRow, WaveStep, MAX_WAVES};
use vstd::prelude::*;
use vstd::utf8::*;

verus! {

/// What asking the swapchain for an image came to.
#[derive(Clone, Copy, PartialEq, Eq, Debug, Structural)]
pub enum Acquired {
    Image(u32),
    /// The window no longer fits the swapchain.
    OutOfDate,
}

/// The semaphores between the queues and the screen.
#[derive(Clone, Copy, PartialEq, Eq, Debug, Structural)]
pub enum Semaphore {
    ImageAvailable,
    RenderFinished,
    Timeline,
}

/// What a submission waits for, and the stage that has to wait.
#[derive(Clone, Copy, PartialEq, Eq, Debug, Structural)]
pub struct Wait {
    pub semaphore: Semaphore,
    pub stage: u32,
    pub value: u64,
}

/// What a submission signals when it is done.
#[derive(Clone, Copy, PartialEq, Eq, Debug, Structural)]
pub struct Signal {
    pub semaphore: Semaphore,
    pub value: u64,
}

/// What the wavefunction shader is told: the terms, and how many there are.
pub struct ComponentsBlock {
    pub num_components: i32,
    pub grid_size: i32,
    pub terms: Vec<OrbitalComponent>,
}

/// What the drawing shaders are told besides matrices and lengths.
#[derive(Clone, Copy, PartialEq, Eq, Debug, Structural)]
pub struct CameraBlock {
    /// The bit pattern of a float.
    pub max_density: u32,
    pub view_mode: i32,
    pub slice_axis: i32,
    pub color_mode: i32,
    pub contour: i32,
    pub mipskip: i32,
    pub coarse_grid: i32,
}

/// A submission to the compute queue.
pub struct AsyncWork {
    pub commands: Vec<Command>,
    pub signal: Signal,
}

/// Everything that a frame does.
pub struct FramePlan {
    pub slot: usize,
    pub image_index: u32,
    pub components: ComponentsBlock,
    pub camera: CameraBlock,
    pub wave_rows: Vec<WaveRow>,
    pub text: Vec<TextQuad>,
    pub async_work: Option<AsyncWork>,
    pub commands: Vec<Command>,
    pub waits: Vec<Wait>,
    pub signal: Signal,
}

/// The mathematical content of a frame's work.
#[verifier::ext_equal]
pub struct PlanModel {
    pub slot: usize,
    pub image_index: u32,
    pub num_components: i32,
    pub grid_size: i32,
    pub terms: Seq<OrbitalComponent>,
    pub camera: CameraBlock,
    pub wave_rows: Seq<WaveRow>,
    pub text: Seq<TextQuad>,
    pub async_work: Option<(Seq<Command>, Signal)>,
    pub commands: Seq<Command>,
    pub waits: Seq<Wait>,
    pub signal: Signal,
}

impl View for FramePlan {
    type V = PlanModel;

    open spec fn view(&self) -> PlanModel {
        PlanModel {
            slot: self.slot,
            image_index: self.image_index,
            num_components: self.components.num_components,
            grid_size: self.components.grid_size,
            terms: self.components.terms@,
            camera: self.camera,
            wave_rows: self.wave_rows@,
            text: self.text@,
            async_work: match self.async_work {
                Some(w) => Some((w.commands@, w.signal)),
                None => None,
            },
            commands: self.commands@,
            waits: self.waits@,
            signal: self.signal,
        }
    }
}

/// The terms that the shader has room for.
pub open spec fn shown_terms(components: Seq<OrbitalComponent>) -> Seq<OrbitalComponent> {
    if components.len() <= MAX_COMPONENTS {
        components
    } else {
        components.take(MAX_COMPONENTS as int)
    }
}

/// What the drawing shaders are told.
pub open spec fn camera_block(r: RendererModel) -> CameraBlock {
    CameraBlock {
        max_density: r.max_density,
        view_mode: renderer::view_number(r.view_mode),
        slice_axis: renderer::axis_number(r.slice_axis),
        color_mode: renderer::color_number(r.color_mode),
        contour: renderer::flag_number(r.show_contour),
        mipskip: renderer::flag_number(r.perf_mipskip),
        coarse_grid: COARSE_GRID_SIZE as i32,
    }
}

/// The families between which the images change hands, where they do.
pub open spec fn handover(r: RendererModel) -> Option<(u32, u32)> {
    match r.caps.async_compute_family {
        Some(family) => if r.use_async() && family != r.caps.graphics_family {
            Some((family, r.caps.graphics_family))
        } else {
            None
        },
        None => None,
    }
}

/// What the compute queue does in a frame.
pub open spec fn async_work(r: RendererModel) -> Option<(Seq<Command>, Signal)> {
    if r.use_async() {
        Some(
            (
                commands::compute_work(
                    r.frame_index,
                    r.initialized[r.frame_index as int],
                    handover(r),
                ),
                Signal { semaphore: Semaphore::Timeline, value: (r.timeline_value + 1) as u64 },
            ),
        )
    } else {
        None
    }
}

/// How the graphics commands come by the volume: they compute it, or take it over.
pub open spec fn volume_source(r: RendererModel) -> Seq<Command> {
    if !r.use_async() {
        commands::compute_work(r.frame_index, r.initialized[r.frame_index as int], None)
    } else {
        match handover(r) {
            Some((src, dst)) => commands::acquire_work(r.frame_index, src, dst),
            None => Seq::empty(),
        }
    }
}

/// The number after `c`, which starts over at zero.
pub open spec fn wrapped_next(c: u32) -> u32 {
    if c == u32::MAX {
        0
    } else {
        (c + 1) as u32
    }
}

/// The commands that place or move the particles.
pub open spec fn particle_work(r: RendererModel) -> Seq<Command> {
    if r.do_particles() {
        seq![
            Command::Bind(Pass::Particles),
            Command::Push(
                Push::Particles {
                    mode: if r.needs_particle_init {
                        0
                    } else {
                        1
                    },
                    seed: wrapped_next(r.frame_counter),
                    num_particles: PARTICLE_COUNT,
                },
            ),
            Command::Dispatch {
                x: commands::groups_for(PARTICLE_COUNT as int, 64) as u32,
                y: 1,
                z: 1,
            },
            Command::Particles(
                BufferBarrier {
                    src_access: ACCESS_SHADER_WRITE,
                    dst_access: ACCESS_SHADER_READ,
                    src_stage: STAGE_COMPUTE_SHADER,
                    dst_stage: STAGE_VERTEX_SHADER,
                },
            ),
        ]
    } else {
        Seq::empty()
    }
}

/// Drawing that starts from black and is kept.
pub open spec fn rendering_of(e: Extent) -> Rendering {
    Rendering {
        width: e.width,
        height: e.height,
        layout: LAYOUT_COLOR_ATTACHMENT,
        load_op: LOAD_CLEAR,
        store_op: STORE_STORE,
        clear_red: ZERO_BITS,
        clear_green: ZERO_BITS,
        clear_blue: ZERO_BITS,
        clear_alpha: ONE_BITS,
    }
}

/// The commands that start to draw into the swapchain's image.
pub open spec fn begin_work(e: Extent) -> Seq<Command> {
    seq![
        Command::Image(
            commands::barrier_of(
                Target::Swap,
                LAYOUT_UNDEFINED,
                LAYOUT_COLOR_ATTACHMENT,
                ACCESS_NONE,
                ACCESS_COLOR_ATTACHMENT_WRITE,
                STAGE_TOP_OF_PIPE,
                STAGE_COLOR_ATTACHMENT_OUTPUT,
            ),
        ),
        Command::BeginRendering(rendering_of(e)),
        Command::Viewport { width: e.width, height: e.height },
        Command::Scissor { width: e.width, height: e.height },
    ]
}

/// The commands that draw the volume or the heatmap.
pub open spec fn volume_draw(r: RendererModel) -> Seq<Command> {
    if r.show_volume {
        seq![
            Command::Bind(
                match r.view_mode {
                    ViewMode::Volume => Pass::Raymarch,
                    ViewMode::Heatmap => Pass::Heatmap,
                },
            ),
            Command::Draw { vertices: 3, instances: 1 },
        ]
    } else {
        Seq::empty()
    }
}

/// The commands that draw the particles.
pub open spec fn billboard_draw(r: RendererModel) -> Seq<Command> {
    if r.show_particles {
        seq![
            Command::Bind(Pass::Billboards),
            Command::Push(Push::Billboards),
            Command::Draw { vertices: 6, instances: PARTICLE_COUNT },
        ]
    } else {
        Seq::empty()
    }
}

/// How many of `alive` shells are drawn.
pub open spec fn drawn_waves(alive: nat) -> u32 {
    if alive <= MAX_WAVES {
        alive as u32
    } else {
        MAX_WAVES
    }
}

/// The commands that draw the shells.
pub open spec fn wave_draw(r: RendererModel, alive: nat) -> Seq<Command> {
    if r.show_waves && alive > 0 {
        seq![
            Command::Bind(Pass::Waves),
            Command::Push(Push::Waves),
            Command::WaveBuffers,
            Command::DrawIndexed { indices: WAVE_INDEX_COUNT, instances: drawn_waves(alive) },
        ]
    } else {
        Seq::empty()
    }
}

/// The commands that draw the text.
pub open spec fn text_draw(e: Extent, quads: nat) -> Seq<Command> {
    if quads > 0 {
        seq![
            Command::Bind(Pass::Text),
            Command::Push(Push::Text { width: e.width, height: e.height }),
            Command::Draw { vertices: 6, instances: quads as u32 },
        ]
    } else {
        Seq::empty()
    }
}

/// The commands that hand the swapchain's image over to the screen.
pub open spec fn end_work() -> Seq<Command> {
    seq![
        Command::EndRendering,
        Command::Image(
            commands::barrier_of(
                Target::Swap,
                LAYOUT_COLOR_ATTACHMENT,
                LAYOUT_PRESENT_SRC,
                ACCESS_COLOR_ATTACHMENT_WRITE,
                ACCESS_NONE,
                STAGE_COLOR_ATTACHMENT_OUTPUT,
                STAGE_BOTTOM_OF_PIPE,
            ),
        ),
    ]
}

/// What the graphics queue does in a frame.
pub open spec fn graphics_work(r: RendererModel, alive: nat, quads: nat) -> Seq<Command> {
    volume_source(r) + particle_work(r) + begin_work(r.swap_extent) + volume_draw(r)
        + billboard_draw(r) + wave_draw(r, alive) + text_draw(r.swap_extent, quads) + end_work()
}

/// The stages that read the volume or the density maximum: the fragment shader and, where
/// the particles move, the compute shader that moves them.
pub open spec fn reading_stages(r: RendererModel) -> u32 {
    if r.do_particles() {
        STAGE_FRAGMENT_AND_COMPUTE
    } else {
        STAGE_FRAGMENT_SHADER
    }
}

/// What the graphics submission waits for: the image to draw to and, where the volume
/// comes from the compute queue, the work that was just handed to it.
pub open spec fn graphics_waits(r: RendererModel) -> Seq<Wait> {
    let image = Wait {
        semaphore: Semaphore::ImageAvailable,
        stage: STAGE_COLOR_ATTACHMENT_OUTPUT,
        value: 0,
    };
    if r.use_async() {
        seq![
            image,
            Wait {
                semaphore: Semaphore::Timeline,
                stage: reading_stages(r),
                value: (r.timeline_value + 1) as u64,
            },
        ]
    } else {
        seq![image]
    }
}

/// The text over the picture.
pub open spec fn frame_text(r: RendererModel, fps_text: Seq<char>) -> Seq<TextQuad> {
    overlay::capped_quads(
        overlay::lines_quads(
            overlay::overlay_models(fps_text, r.caps, r.perf_async, r.perf_mipskip),
        ),
    )
}

/// Everything that a frame does, given the image to draw to, what became of the shells,
/// and the text for the frame rate.
pub open spec fn frame_plan(
    r: RendererModel,
    image_index: u32,
    steps: Seq<WaveStep>,
    fps_text: Seq<char>,
) -> PlanModel {
    let alive = waves::waves_after(r.waves, steps);
    PlanModel {
        slot: r.frame_index,
        image_index,
        num_components: r.components.len() as i32,
        grid_size: GRID_SIZE as i32,
        terms: shown_terms(r.components),
        camera: camera_block(r),
        wave_rows: waves::wave_rows(alive),
        text: frame_text(r, fps_text),
        async_work: async_work(r),
        commands: graphics_work(r, alive.len(), frame_text(r, fps_text).len()),
        waits: graphics_waits(r),
        signal: Signal { semaphore: Semaphore::RenderFinished, value: 0 },
    }
}

/// The state after a frame.
pub open spec fn frame_done(r: RendererModel, steps: Seq<WaveStep>) -> RendererModel {
    RendererModel {
        waves: waves::waves_after(r.waves, steps),
        timeline_value: if r.use_async() {
            (r.timeline_value + 1) as u64
        } else {
            r.timeline_value
        },
        frame_counter: if r.do_particles() {
            wrapped_next(r.frame_counter)
        } else {
            r.frame_counter
        },
        needs_particle_init: r.needs_particle_init && !r.do_particles(),
        initialized: r.initialized.update(r.frame_index as int, true),
        frame_index: ((r.frame_index + 1) % (FRAMES_IN_FLIGHT as int)) as usize,
        ..r
    }
}

fn view_index(v: ViewMode) -> (n: i32)
    ensures
        n == renderer::view_number(v),
{
    match v {
        ViewMode::Volume => 0,
        ViewMode::Heatmap => 1,
    }
}

fn axis_index(a: SliceAxis) -> (n: i32)
    ensures
        n == renderer::axis_number(a),
{
    match a {
        SliceAxis::XY => 0,
        SliceAxis::XZ => 1,
        SliceAxis::YZ => 2,
    }
}

fn color_index(c: ColorMode) -> (n: i32)
    ensures
        n == renderer::color_number(c),
{
    match c {
        ColorMode::Density => 0,
        ColorMode::Real => 1,
        ColorMode::Phase => 2,
    }
}

fn flag_index(b: bool) -> (n: i32)
    ensures
        n == renderer::flag_number(b),
{
    if b {
        1
    } else {
        0
    }
}

impl VulkanRenderer {
    /// What the wavefunction shader is told of the terms.
    pub fn write_components_ubo(&self) -> (block: ComponentsBlock)
        ensures
            block.num_components == self@.components.len() as i32,
            block.grid_size == GRID_SIZE,
            block.terms@ == shown_terms(self@.components),
            block.terms@.len() == if self.components@.len() < 8 {
                self.components@.len()
            } else {
                8
            },
            forall|i: int|
                0 <= i < block.terms@.len() ==> #[trigger] block.terms@[i] == self.components@[i],
            self.components@.len() <= i32::MAX ==> block.num_components == self.components@.len(),
    {
        let count: usize = if self.components.len() <= MAX_COMPONENTS {
            self.components.len()
        } else {
            MAX_COMPONENTS
        };
        let mut terms: Vec<OrbitalComponent> = Vec::new();
        for i in 0..count
            invariant
                count == shown_terms(self@.components).len(),
                count <= self.components.len(),
                terms@ == self@.components.take(i as int),
        {
            terms.push(self.components[i]);
            assert(terms@ =~= self@.components.take(i + 1));
        }
        assert(terms@ =~= shown_terms(self@.components));
        ComponentsBlock {
            num_components: self.components.len() as i32,
            grid_size: GRID_SIZE as i32,
            terms,
        }
    }

    /// What the drawing shaders are told besides matrices and lengths.
    pub fn write_camera_ubo(&self) -> (block: CameraBlock)
        ensures
            block == camera_block(self@),
            block.max_density == self.max_density,
            block.view_mode == (if self.view_mode is Heatmap {
                1int
            } else {
                0
            }),
            block.contour == (if self.show_contour {
                1int
            } else {
                0
            }),
            block.mipskip == (if self.perf_mipskip {
                1int
            } else {
                0
            }),
            block.coarse_grid * 8 == GRID_SIZE,
    {
        CameraBlock {
            max_density: self.max_density,
            view_mode: view_index(self.view_mode),
            slice_axis: axis_index(self.slice_axis),
            color_mode: color_index(self.color_mode),
            contour: flag_index(self.show_contour),
            mipskip: flag_index(self.perf_mipskip),
            coarse_grid: COARSE_GRID_SIZE as i32,
        }
    }

    /// Lets a step of time pass for the shells, and says what the shader is told of them.
    pub fn update_waves(&mut self, steps: &Vec<WaveStep>) -> (out: Vec<WaveRow>)
        requires
            steps@.len() == old(self)@.waves.len(),
        ensures
            final(self)@ == (RendererModel {
                waves: waves::waves_after(old(self)@.waves, steps@),
                ..old(self)@
            }),
            out@ == waves::wave_rows(final(self)@.waves),
    {
        advance(&mut self.waves, steps);
        rows(&self.waves)
    }

    /// The families between which the images change hands, where they do.
    fn hands_over(&self) -> (to: Option<(u32, u32)>)
        ensures
            to == handover(self@),
    {
        match self.caps.async_compute_family {
            Some(family) => if self.perf_async && family != self.caps.graphics_family {
                Some((family, self.caps.graphics_family))
            } else {
                None
            },
            None => None,
        }
    }

    /// The commands by which the graphics queue comes by the volume.
    fn push_volume_source(&self, out: &mut Vec<Command>)
        requires
            self@.wf(),
        ensures
            final(out)@ == old(out)@ + volume_source(self@),
    {
        let slot: usize = self.frame_index;
        if !(self.perf_async && self.caps.has_async_compute()) {
            out.append(&mut record_compute_work(slot, self.initialized[slot], None));
        } else if let Some((src, dst)) = self.hands_over() {
            let volume = Target::Named(ImageName::Volume(slot));
            let psi_max = Target::Named(ImageName::PsiMax(slot));
            out.push(
                Command::Image(queue_family_acquire(volume, src, dst, LAYOUT_SHADER_READ_ONLY)),
            );
            out.push(
                Command::Image(queue_family_acquire(psi_max, src, dst, LAYOUT_SHADER_READ_ONLY)),
            );
        }
        assert(out@ =~= old(out)@ + volume_source(self@));
    }

    /// The commands that place or move the particles.
    fn push_particle_work(&self, out: &mut Vec<Command>)
        ensures
            final(out)@ == old(out)@ + particle_work(self@),
    {
        if self.show_particles && self.frame_index == 0 {
            let mode: u32 = if self.needs_particle_init {
                0
            } else {
                1
            };
            out.push(Command::Bind(Pass::Particles));
            out.push(
                Command::Push(
                    Push::Particles {
                        mode,
                        seed: self.frame_counter.wrapping_add(1),
                        num_particles: PARTICLE_COUNT,
                    },
                ),
            );
            out.push(Command::Dispatch { x: (PARTICLE_COUNT + 63) / 64, y: 1, z: 1 });
            out.push(
                Command::Particles(
                    BufferBarrier {
                        src_access: ACCESS_SHADER_WRITE,
                        dst_access: ACCESS_SHADER_READ,
                        src_stage: STAGE_COMPUTE_SHADER,
                        dst_stage: STAGE_VERTEX_SHADER,
                    },
                ),
            );
        }
        assert(out@ =~= old(out)@ + particle_work(self@));
    }

    /// The commands that start to draw into the swapchain's image.
    fn push_begin(&self, out: &mut Vec<Command>)
        ensures
            final(out)@ == old(out)@ + begin_work(self@.swap_extent),
    {
        let width: u32 = self.swap_extent.width;
        let height: u32 = self.swap_extent.height;
        out.push(
            Command::Image(
                image_barrier(
                    Target::Swap,
                    LAYOUT_UNDEFINED,
                    LAYOUT_COLOR_ATTACHMENT,
                    ACCESS_NONE,
                    ACCESS_COLOR_ATTACHMENT_WRITE,
                    STAGE_TOP_OF_PIPE,
                    STAGE_COLOR_ATTACHMENT_OUTPUT,
                ),
            ),
        );
        out.push(
            Command::BeginRendering(
                Rendering {
                    width,
                    height,
                    layout: LAYOUT_COLOR_ATTACHMENT,
                    load_op: LOAD_CLEAR,
                    store_op: STORE_STORE,
                    clear_red: ZERO_BITS,
                    clear_green: ZERO_BITS,
                    clear_blue: ZERO_BITS,
                    clear_alpha: ONE_BITS,
                },
            ),
        );
        out.push(Command::Viewport { width, height });
        out.push(Command::Scissor { width, height });
        assert(out@ =~= old(out)@ + begin_work(self@.swap_extent));
    }

    /// The commands that draw the volume or the heatmap.
    fn push_volume_draw(&self, out: &mut Vec<Command>)
        ensures
            final(out)@ == old(out)@ + volume_draw(self@),
    {
        if self.show_volume {
            let pass = match self.view_mode {
                ViewMode::Volume => Pass::Raymarch,
                ViewMode::Heatmap => Pass::Heatmap,
            };
            out.push(Command::Bind(pass));
            out.push(Command::Draw { vertices: 3, instances: 1 });
        }
        assert(out@ =~= old(out)@ + volume_draw(self@));
    }

    /// The commands that draw the particles.
    fn push_billboard_draw(&self, out: &mut Vec<Command>)
        ensures
            final(out)@ == old(out)@ + billboard_draw(self@),
    {
        if self.show_particles {
            out.push(Command::Bind(Pass::Billboards));
            out.push(Command::Push(Push::Billboards));
            out.push(Command::Draw { vertices: 6, instances: PARTICLE_COUNT });
        }
        assert(out@ =~= old(out)@ + billboard_draw(self@));
    }

    /// The commands that draw the shells.
    fn push_wave_draw(&self, out: &mut Vec<Command>, alive: usize)
        ensures
            final(out)@ == old(out)@ + wave_draw(self@, alive as nat),
    {
        if self.show_waves && alive > 0 {
            let instances: u32 = if alive <= MAX_WAVES as usize {
                alive as u32
            } else {
                MAX_WAVES
            };
            out.push(Command::Bind(Pass::Waves));
            out.push(Command::Push(Push::Waves));
            out.push(Command::WaveBuffers);
            out.push(Command::DrawIndexed { indices: WAVE_INDEX_COUNT, instances });
        }
        assert(out@ =~= old(out)@ + wave_draw(self@, alive as nat));
    }

    /// The commands that draw the text.
    fn push_text_draw(&self, out: &mut Vec<Command>, quads: usize)
        requires
            quads <= u32::MAX,
        ensures
            final(out)@ == old(out)@ + text_draw(self@.swap_extent, quads as nat),
    {
        let width: u32 = self.swap_extent.width;
        let height: u32 = self.swap_extent.height;
        if quads > 0 {
            out.push(Command::Bind(Pass::Text));
            out.push(Command::Push(Push::Text { width, height }));
            out.push(Command::Draw { vertices: 6, instances: quads as u32 });
        }
        assert(out@ =~= old(out)@ + text_draw(self@.swap_extent, quads as nat));
    }

    /// The commands that hand the swapchain's image over to the screen.
    fn push_end(&self, out: &mut Vec<Command>)
        ensures
            final(out)@ == old(out)@ + end_work(),
    {
        out.push(Command::EndRendering);
        out.push(
            Command::Image(
                image_barrier(
                    Target::Swap,
                    LAYOUT_COLOR_ATTACHMENT,
                    LAYOUT_PRESENT_SRC,
                    ACCESS_COLOR_ATTACHMENT_WRITE,
                    ACCESS_NONE,
                    STAGE_COLOR_ATTACHMENT_OUTPUT,
                    STAGE_BOTTOM_OF_PIPE,
                ),
            ),
        );
        assert(out@ =~= old(out)@ + end_work());
    }

    /// Works a frame out and goes on to the next slot. Where the window no longer fits
    /// the swapchain, nothing is done.
    pub fn render_frame(&mut self, acquired: Acquired, steps: &Vec<WaveStep>, fps_text: &str)
        -> (plan: Option<FramePlan>)
        requires
            old(self)@.wf(),
            acquired is Image ==> {
                &&& acquired->Image_0 < old(self)@.swap_image_count
                &&& steps@.len() == old(self)@.waves.len()
                &&& old(self)@.use_async() ==> old(self)@.timeline_value < u64::MAX
                &&& overlay::cuts_at(old(self)@.caps.device_name@, SHOWN_NAME_BYTES as int)
                &&& encode_utf8(fps_text@).len() <= MAX_LINE_BYTES
            },
        ensures
            match acquired {
                Acquired::OutOfDate => plan is None && final(self)@ == old(self)@,
                Acquired::Image(i) => {
                    &&& plan matches Some(p) && p@ == frame_plan(old(self)@, i, steps@, fps_text@)
                    &&& final(self)@ == frame_done(old(self)@, steps@)
                },
            },
            final(self)@.wf(),
    {
        let image_index: u32 = match acquired {
            Acquired::Image(i) => i,
            Acquired::OutOfDate => {
                return None;
            },
        };
        let ghost before = self@;
        let slot: usize = self.frame_index;
        let components = self.write_components_ubo();
        let camera = self.write_camera_ubo();
        let use_async: bool = self.perf_async && self.caps.has_async_compute();
        let async_work = if use_async {
            Some(
                AsyncWork {
                    commands: record_compute_work(slot, self.initialized[slot], self.hands_over()),
                    signal: Signal {
                        semaphore: Semaphore::Timeline,
                        value: self.timeline_value + 1,
                    },
                },
            )
        } else {
            None
        };
        let mut waits: Vec<Wait> = Vec::new();
        waits.push(
            Wait {
                semaphore: Semaphore::ImageAvailable,
                stage: STAGE_COLOR_ATTACHMENT_OUTPUT,
                value: 0,
            },
        );
        if use_async {
            waits.push(
                Wait {
                    semaphore: Semaphore::Timeline,
                    stage: if self.show_particles && slot == 0 {
                        STAGE_FRAGMENT_AND_COMPUTE
                    } else {
                        STAGE_FRAGMENT_SHADER
                    },
                    value: self.timeline_value + 1,
                },
            );
        }
        assert(waits@ =~= graphics_waits(before));
        let text = build_overlay_text_quads(
            fps_text,
            &self.caps,
            self.perf_async,
            self.perf_mipskip,
        );
        let mut commands: Vec<Command> = Vec::new();
        self.push_volume_source(&mut commands);
        self.push_particle_work(&mut commands);
        assert(commands@ =~= volume_source(before) + particle_work(before));
        let wave_rows = self.update_waves(steps);
        self.push_begin(&mut commands);
        self.push_volume_draw(&mut commands);
        self.push_billboard_draw(&mut commands);
        self.push_wave_draw(&mut commands, self.waves.len());
        self.push_text_draw(&mut commands, text.len());
        self.push_end(&mut commands);
        assert(commands@ =~= graphics_work(
            before,
            waves::waves_after(before.waves, steps@).len(),
            text@.len(),
        ));
        if use_async {
            self.timeline_value = self.timeline_value + 1;
        }
        if self.show_particles && slot == 0 {
            self.frame_counter = self.frame_counter.wrapping_add(1);
            self.needs_particle_init = false;
        }
        self.initialized.set(slot, true);
        self.frame_index = (slot + 1) % FRAMES_IN_FLIGHT;
        assert(self@ =~= frame_done(before, steps@));
        Some(
            FramePlan {
                slot,
                image_index,
                components,
                camera,
                wave_rows,
                text,
                async_work,
                commands,
                waits,
                signal: Signal { semaphore: Semaphore::RenderFinished, value: 0 },
            },
        )
    }
}

/// A command buffer that was just begun.
pub open spec fn begun(layouts: Map<Target, i32>) -> commands::Recording {
    commands::Recording { layouts, bound: None, pushed: false, rendering: false }
}

/// Whether an image is ready to be read by shaders.
pub open spec fn is_readable(layouts: Map<Target, i32>, image: ImageName) -> bool {
    layouts[Target::Named(image)] == LAYOUT_SHADER_READ_ONLY
}

/// Whether what the state says of the images is true: those of a frame that was computed
/// can be read, so can the font, and so can the first frame's volume once the second
/// frame is due.
pub open spec fn is_consistent(r: RendererModel, layouts: Map<Target, i32>) -> bool {
    &&& r.wf()
    &&& forall|s: usize|
        s < 2 && r.initialized[s as int] ==> #[trigger] is_readable(layouts, ImageName::Volume(s))
            && is_readable(layouts, ImageName::PsiMax(s))
    &&& is_readable(layouts, ImageName::Font)
    &&& r.frame_index == 1 ==> is_readable(layouts, ImageName::Volume(0))
}

/// Whether two sets of layouts differ in nothing but the image that is shown.
pub open spec fn same_but_swap(a: Map<Target, i32>, b: Map<Target, i32>) -> bool {
    forall|i: ImageName| #[trigger] a[Target::Named(i)] == b[Target::Named(i)]
}

proof fn lemma_begin(m: commands::Recording, e: Extent, slot: usize)
    requires
        !m.rendering,
    ensures
        commands::may_follow_all(m, begin_work(e), slot),
        commands::recorded_all(m, begin_work(e)).rendering,
        same_but_swap(commands::recorded_all(m, begin_work(e)).layouts, m.layouts),
        commands::recorded_all(m, begin_work(e)).layouts[Target::Swap] == LAYOUT_COLOR_ATTACHMENT,
{
    broadcast use commands::lemma_recorded_push, commands::lemma_may_follow_push;

    let work = begin_work(e);
    let s0 = Seq::<Command>::empty();
    let s1 = s0.push(work[0]);
    let s2 = s1.push(work[1]);
    let s3 = s2.push(work[2]);
    let s4 = s3.push(work[3]);
    assert(work =~= s4);
    assert(commands::may_follow_all(m, s1, slot));
    assert(commands::may_follow_all(m, s2, slot));
    assert(commands::may_follow_all(m, s3, slot));
    assert(commands::may_follow_all(m, s4, slot));
}

proof fn lemma_volume_draw(m: commands::Recording, r: RendererModel, slot: usize)
    requires
        m.rendering,
        slot < 2,
        is_readable(m.layouts, ImageName::Volume(slot)),
        is_readable(m.layouts, ImageName::PsiMax(slot)),
    ensures
        commands::may_follow_all(m, volume_draw(r), slot),
        commands::recorded_all(m, volume_draw(r)).rendering,
        commands::recorded_all(m, volume_draw(r)).layouts == m.layouts,
{
    broadcast use commands::lemma_recorded_push, commands::lemma_may_follow_push;

    if r.show_volume {
        let work = volume_draw(r);
        commands::lemma_images_ready(m.layouts, Pass::Raymarch, slot);
        commands::lemma_images_ready(m.layouts, Pass::Heatmap, slot);
        let s0 = Seq::<Command>::empty();
        let s1 = s0.push(work[0]);
        let s2 = s1.push(work[1]);
        assert(work =~= s2);
        assert(commands::may_follow_all(m, s1, slot));
        assert(commands::may_follow_all(m, s2, slot));
    }
}

proof fn lemma_billboard_draw(m: commands::Recording, r: RendererModel, slot: usize)
    requires
        m.rendering,
        slot < 2,
        is_readable(m.layouts, ImageName::Volume(0)),
    ensures
        commands::may_follow_all(m, billboard_draw(r), slot),
        commands::recorded_all(m, billboard_draw(r)).rendering,
        commands::recorded_all(m, billboard_draw(r)).layouts == m.layouts,
{
    broadcast use commands::lemma_recorded_push, commands::lemma_may_follow_push;

    if r.show_particles {
        let work = billboard_draw(r);
        commands::lemma_images_ready(m.layouts, Pass::Billboards, slot);
        let s0 = Seq::<Command>::empty();
        let s1 = s0.push(work[0]);
        let s2 = s1.push(work[1]);
        let s3 = s2.push(work[2]);
        assert(work =~= s3);
        assert(commands::may_follow_all(m, s1, slot));
        assert(commands::may_follow_all(m, s2, slot));
        assert(commands::may_follow_all(m, s3, slot));
    }
}

proof fn lemma_wave_draw(m: commands::Recording, r: RendererModel, alive: nat, slot: usize)
    requires
        m.rendering,
        slot < 2,
    ensures
        commands::may_follow_all(m, wave_draw(r, alive), slot),
        commands::recorded_all(m, wave_draw(r, alive)).rendering,
        commands::recorded_all(m, wave_draw(r, alive)).layouts == m.layouts,
{
    broadcast use commands::lemma_recorded_push, commands::lemma_may_follow_push;

    if r.show_waves && alive > 0 {
        let work = wave_draw(r, alive);
        commands::lemma_images_ready(m.layouts, Pass::Waves, slot);
        let s0 = Seq::<Command>::empty();
        let s1 = s0.push(work[0]);
        let s2 = s1.push(work[1]);
        let s3 = s2.push(work[2]);
        let s4 = s3.push(work[3]);
        assert(work =~= s4);
        assert(commands::may_follow_all(m, s1, slot));
        assert(commands::may_follow_all(m, s2, slot));
        assert(commands::may_follow_all(m, s3, slot));
        assert(commands::may_follow_all(m, s4, slot));
    }
}

proof fn lemma_text_draw(m: commands::Recording, e: Extent, quads: nat, slot: usize)
    requires
        m.rendering,
        slot < 2,
        is_readable(m.layouts, ImageName::Font),
    ensures
        commands::may_follow_all(m, text_draw(e, quads), slot),
        commands::recorded_all(m, text_draw(e, quads)).rendering,
        commands::recorded_all(m, text_draw(e, quads)).layouts == m.layouts,
{
    broadcast use commands::lemma_recorded_push, commands::lemma_may_follow_push;

    if quads > 0 {
        let work = text_draw(e, quads);
        commands::lemma_images_ready(m.layouts, Pass::Text, slot);
        let s0 = Seq::<Command>::empty();
        let s1 = s0.push(work[0]);
        let s2 = s1.push(work[1]);
        let s3 = s2.push(work[2]);
        assert(work =~= s3);
        assert(commands::may_follow_all(m, s1, slot));
        assert(commands::may_follow_all(m, s2, slot));
        assert(commands::may_follow_all(m, s3, slot));
    }
}

proof fn lemma_end(m: commands::Recording, slot: usize)
    requires
        m.rendering,
        m.layouts[Target::Swap] == LAYOUT_COLOR_ATTACHMENT,
    ensures
        commands::may_follow_all(m, end_work(), slot),
        !commands::recorded_all(m, end_work()).rendering,
        same_but_swap(commands::recorded_all(m, end_work()).layouts, m.layouts),
        commands::recorded_all(m, end_work()).layouts[Target::Swap] == LAYOUT_PRESENT_SRC,
{
    broadcast use commands::lemma_recorded_push, commands::lemma_may_follow_push;

    let work = end_work();
    let s0 = Seq::<Command>::empty();
    let s1 = s0.push(work[0]);
    let s2 = s1.push(work[1]);
    assert(work =~= s2);
    assert(commands::may_follow_all(m, s1, slot));
    assert(commands::may_follow_all(m, s2, slot));
}

proof fn lemma_particle_work(m: commands::Recording, r: RendererModel, slot: usize)
    requires
        !m.rendering,
        slot < 2,
        r.do_particles() ==> is_readable(m.layouts, ImageName::Volume(0)),
    ensures
        commands::may_follow_all(m, particle_work(r), slot),
        !commands::recorded_all(m, particle_work(r)).rendering,
        commands::recorded_all(m, particle_work(r)).layouts == m.layouts,
{
    broadcast use commands::lemma_recorded_push, commands::lemma_may_follow_push;

    if r.do_particles() {
        let work = particle_work(r);
        commands::lemma_images_ready(m.layouts, Pass::Particles, slot);
        let s0 = Seq::<Command>::empty();
        let s1 = s0.push(work[0]);
        let s2 = s1.push(work[1]);
        let s3 = s2.push(work[2]);
        let s4 = s3.push(work[3]);
        assert(work =~= s4);
        assert(commands::may_follow_all(m, s1, slot));
        assert(commands::may_follow_all(m, s2, slot));
        assert(commands::may_follow_all(m, s3, slot));
        assert(commands::may_follow_all(m, s4, slot));
    }
}

proof fn lemma_acquire_work(m: commands::Recording, slot: usize, src: u32, dst: u32)
    requires
        !m.rendering,
        is_readable(m.layouts, ImageName::Volume(slot)),
        is_readable(m.layouts, ImageName::PsiMax(slot)),
    ensures
        commands::may_follow_all(m, commands::acquire_work(slot, src, dst), slot),
        !commands::recorded_all(m, commands::acquire_work(slot, src, dst)).rendering,
        forall|t: Target| #[trigger]
            commands::recorded_all(m, commands::acquire_work(slot, src, dst)).layouts[t]
                == m.layouts[t],
{
    broadcast use commands::lemma_recorded_push, commands::lemma_may_follow_push;

    let work = commands::acquire_work(slot, src, dst);
    let s0 = Seq::<Command>::empty();
    let s1 = s0.push(work[0]);
    let s2 = s1.push(work[1]);
    assert(work =~= s2);
    assert(commands::may_follow_all(m, s1, slot));
    assert(commands::may_follow_all(m, s2, slot));
}

/// The layouts when the graphics commands start: the compute queue's work comes first.
pub open spec fn layouts_for_graphics(
    r: RendererModel,
    layouts: Map<Target, i32>,
) -> Map<Target, i32> {
    match async_work(r) {
        Some((work, signal)) => commands::recorded_all(begun(layouts), work).layouts,
        None => layouts,
    }
}

/// The layouts after a frame.
pub open spec fn layouts_after_frame(
    r: RendererModel,
    layouts: Map<Target, i32>,
    alive: nat,
    quads: nat,
) -> Map<Target, i32> {
    commands::recorded_all(
        begun(layouts_for_graphics(r, layouts)),
        graphics_work(r, alive, quads),
    ).layouts
}

/// However the graphics commands come by the volume, they find it ready to be read.
proof fn lemma_volume_source(r: RendererModel, layouts: Map<Target, i32>)
    requires
        is_consistent(r, layouts),
    ensures
        async_work(r) matches Some((work, signal)) ==> commands::may_follow_all(
            begun(layouts),
            work,
            r.frame_index,
        ),
        commands::may_follow_all(
            begun(layouts_for_graphics(r, layouts)),
            volume_source(r),
            r.frame_index,
        ),
        ({
            let m = commands::recorded_all(
                begun(layouts_for_graphics(r, layouts)),
                volume_source(r),
            );
            &&& !m.rendering
            &&& is_readable(m.layouts, ImageName::Volume(r.frame_index))
            &&& is_readable(m.layouts, ImageName::PsiMax(r.frame_index))
            &&& is_readable(m.layouts, ImageName::Volume(0))
            &&& forall|t: Target|
                t != Target::Named(ImageName::Volume(r.frame_index)) && t != Target::Named(
                    ImageName::PsiMax(r.frame_index),
                ) ==> #[trigger] m.layouts[t] == layouts[t]
        }),
{
    let slot = r.frame_index;
    let was_init = r.initialized[slot as int];
    if was_init {
        assert(is_readable(layouts, ImageName::Volume(slot)));
    }
    let m0 = begun(layouts_for_graphics(r, layouts));
    let w1 = volume_source(r);
    let m1 = commands::recorded_all(m0, w1);
    if r.use_async() {
        commands::law_compute_work_leaves_images_readable(
            begun(layouts),
            slot,
            was_init,
            handover(r),
        );
        if let Some((src, dst)) = handover(r) {
            lemma_acquire_work(m0, slot, src, dst);
        }
    } else {
        commands::law_compute_work_leaves_images_readable(m0, slot, was_init, None);
    }
    assert(commands::may_follow_all(m0, w1, slot));
    assert(is_readable(m1.layouts, ImageName::Volume(slot)));
    assert(is_readable(m1.layouts, ImageName::PsiMax(slot)));
    assert(forall|t: Target|
        t != Target::Named(ImageName::Volume(slot)) && t != Target::Named(ImageName::PsiMax(slot))
            ==> #[trigger] m1.layouts[t] == layouts[t]);
    assert(is_readable(m1.layouts, ImageName::Volume(0)));
}

/// The state, when it is true of the images, leads to frames that use every image in the
/// layout it is in, on both queues and in every setting of the switches. The image that
/// is shown ends up ready for the screen, and the state stays true.
#[verifier::spinoff_prover]
#[verifier::rlimit(40)]
pub proof fn law_frames_use_images_in_order(
    r: RendererModel,
    layouts: Map<Target, i32>,
    steps: Seq<WaveStep>,
    alive: nat,
    quads: nat,
)
    requires
        is_consistent(r, layouts),
    ensures
        async_work(r) matches Some((work, signal)) ==> commands::may_follow_all(
            begun(layouts),
            work,
            r.frame_index,
        ),
        commands::may_follow_all(
            begun(layouts_for_graphics(r, layouts)),
            graphics_work(r, alive, quads),
            r.frame_index,
        ),
        layouts_after_frame(r, layouts, alive, quads)[Target::Swap] == LAYOUT_PRESENT_SRC,
        is_consistent(frame_done(r, steps), layouts_after_frame(r, layouts, alive, quads)),
{
    let slot = r.frame_index;
    let m0 = begun(layouts_for_graphics(r, layouts));
    let w1 = volume_source(r);
    let m1 = commands::recorded_all(m0, w1);
    lemma_volume_source(r, layouts);
    lemma_particle_work(m1, r, slot);
    let w2 = w1 + particle_work(r);
    commands::lemma_recorded_concat(m0, w1, particle_work(r), slot);
    let m2 = commands::recorded_all(m0, w2);
    lemma_begin(m2, r.swap_extent, slot);
    let w3 = w2 + begin_work(r.swap_extent);
    commands::lemma_recorded_concat(m0, w2, begin_work(r.swap_extent), slot);
    let m3 = commands::recorded_all(m0, w3);
    lemma_volume_draw(m3, r, slot);
    let w4 = w3 + volume_draw(r);
    commands::lemma_recorded_concat(m0, w3, volume_draw(r), slot);
    let m4 = commands::recorded_all(m0, w4);
    lemma_billboard_draw(m4, r, slot);
    let w5 = w4 + billboard_draw(r);
    commands::lemma_recorded_concat(m0, w4, billboard_draw(r), slot);
    let m5 = commands::recorded_all(m0, w5);
    lemma_wave_draw(m5, r, alive, slot);
    let w6 = w5 + wave_draw(r, alive);
    commands::lemma_recorded_concat(m0, w5, wave_draw(r, alive), slot);
    let m6 = commands::recorded_all(m0, w6);
    lemma_text_draw(m6, r.swap_extent, quads, slot);
    let w7 = w6 + text_draw(r.swap_extent, quads);
    commands::lemma_recorded_concat(m0, w6, text_draw(r.swap_extent, quads), slot);
    let m7 = commands::recorded_all(m0, w7);
    lemma_end(m7, slot);
    commands::lemma_recorded_concat(m0, w7, end_work(), slot);
    let after = layouts_after_frame(r, layouts, alive, quads);
    assert(same_but_swap(after, m1.layouts));
    let done = frame_done(r, steps);
    assert forall|s: usize| s < 2 && done.initialized[s as int] implies #[trigger] is_readable(
        after,
        ImageName::Volume(s),
    ) && is_readable(after, ImageName::PsiMax(s)) by {
        if s != slot {
            assert(is_readable(layouts, ImageName::Volume(s)));
        }
    }
}

/// The first state is true of images that nothing was done to, once the font is filled.
pub proof fn law_first_state_is_consistent(
    caps: DeviceCaps,
    extent: Extent,
    images: usize,
    layouts: Map<Target, i32>,
)
    requires
        is_readable(layouts, ImageName::Font),
    ensures
        is_consistent(renderer::initial_state(caps, extent, images), layouts),
{
}

/// Switching the second queue on or off leaves the state true of the images.
pub proof fn law_switching_queues_stays_consistent(r: RendererModel, layouts: Map<Target, i32>)
    requires
        is_consistent(r, layouts),
    ensures
        is_consistent(renderer::async_toggled(r), layouts),
{
}

/// The drawing waits for the compute work of the same frame and for no other: it waits
/// for the value that this work signals. These values count the frames that the compute
/// queue worked on, so that no two frames signal the same one.
pub proof fn law_drawing_waits_for_its_volume(r: RendererModel, steps: Seq<WaveStep>)
    requires
        r.use_async() ==> r.timeline_value < u64::MAX,
    ensures
        async_work(r) matches Some((work, signal)) ==> {
            &&& signal.semaphore == Semaphore::Timeline
            &&& signal.value == r.timeline_value + 1
            &&& signal.value == frame_done(r, steps).timeline_value
            &&& graphics_waits(r).contains(
                Wait {
                    semaphore: Semaphore::Timeline,
                    stage: reading_stages(r),
                    value: signal.value,
                },
            )
        },
        async_work(r) is None ==> {
            &&& frame_done(r, steps).timeline_value == r.timeline_value
            &&& forall|i: int|
                0 <= i < graphics_waits(r).len() ==> (#[trigger] graphics_waits(r)[i]).semaphore
                    != Semaphore::Timeline
        },
        graphics_waits(r)[0] == (Wait {
            semaphore: Semaphore::ImageAvailable,
            stage: STAGE_COLOR_ATTACHMENT_OUTPUT,
            value: 0,
        }),
{
    if r.use_async() {
        assert(graphics_waits(r)[1].semaphore == Semaphore::Timeline);
    }
}

/// The volume is computed once in a frame, on one queue or on the other, and the images
/// are given up on the compute queue exactly where the graphics queue takes them over.
pub proof fn law_volume_is_computed_once(r: RendererModel)
    ensures
        async_work(r) is Some <==> r.use_async(),
        !r.use_async() ==> volume_source(r) == commands::compute_work(
            r.frame_index,
            r.initialized[r.frame_index as int],
            None,
        ),
        async_work(r) matches Some((work, signal)) ==> match handover(r) {
            Some((src, dst)) => {
                &&& src != dst
                &&& work == commands::volume_work(
                    r.frame_index,
                    r.initialized[r.frame_index as int],
                ) + commands::release_work(r.frame_index, Some((src, dst)))
                &&& volume_source(r) == commands::acquire_work(r.frame_index, src, dst)
            },
            None => {
                &&& work == commands::volume_work(
                    r.frame_index,
                    r.initialized[r.frame_index as int],
                )
                &&& volume_source(r).len() == 0
            },
        },
{
    if r.use_async() && handover(r) is None {
        let base = commands::volume_work(r.frame_index, r.initialized[r.frame_index as int]);
        assert(base + Seq::<Command>::empty() =~= base);
    }
}

/// Particles that were asked to be placed anew are placed in the next frame that moves
/// them, and moved from there on until they are asked again.
pub proof fn law_particles_are_placed_once(r: RendererModel, steps: Seq<WaveStep>)
    ensures
        r.do_particles() ==> {
            &&& particle_work(r)[1] matches Command::Push(Push::Particles { mode, .. }) && (mode
                == 0 <==> r.needs_particle_init)
            &&& !frame_done(r, steps).needs_particle_init
        },
        !r.do_particles() ==> frame_done(r, steps).needs_particle_init == r.needs_particle_init,
{
}

/// The slots take turns.
pub proof fn law_slots_take_turns(r: RendererModel, first: Seq<WaveStep>, second: Seq<WaveStep>)
    requires
        r.wf(),
    ensures
        frame_done(r, first).frame_index != r.frame_index,
        frame_done(frame_done(r, first), second).frame_index == r.frame_index,
        frame_done(frame_done(r, first), second).initialized == seq![true, true],
{
    let twice = frame_done(frame_done(r, first), second).initialized;
    assert(twice =~= seq![true, true]);
}

/// No more shells and no more characters are drawn than the shaders' buffers hold.
pub proof fn law_draws_stay_within_buffers(r: RendererModel, steps: Seq<WaveStep>, fps: Seq<char>)
    ensures
        waves::wave_rows(waves::waves_after(r.waves, steps)).len() <= MAX_WAVES,
        drawn_waves(waves::waves_after(r.waves, steps).len()) == waves::wave_rows(
            waves::waves_after(r.waves, steps),
        ).len(),
        frame_text(r, fps).len() <= overlay::MAX_TEXT_QUADS,
        shown_terms(r.components).len() <= MAX_COMPONENTS,
{
}

/// Whether a list of commands computes nothing.
pub open spec fn only_draws(cs: Seq<Command>) -> bool {
    forall|i: int| 0 <= i < cs.len() ==> (#[trigger] cs[i]) !is Dispatch
}

/// Whether a place of a descriptor set is filled with the volume or the density maximum
/// of a frame.
pub open spec fn shows_volume(w: DescriptorWrite) -> bool {
    w.source matches Source::Image { image, .. } && (image is Volume || image is PsiMax)
}

/// Whether all of the shaders run in stages of the mask.
pub open spec fn shaders_wait(shaders: u32, mask: u32) -> bool {
    &&& shaders & SHADER_VERTEX != 0 ==> mask & STAGE_VERTEX_SHADER != 0
    &&& shaders & SHADER_FRAGMENT != 0 ==> mask & STAGE_FRAGMENT_SHADER != 0
    &&& shaders & SHADER_COMPUTE != 0 ==> mask & STAGE_COMPUTE_SHADER != 0
}

/// Whether the shaders of a pass that are shown the volume or the density maximum run in
/// stages of the mask.
pub open spec fn pass_waits(pass: Pass, slot: usize, mask: u32) -> bool {
    forall|k: int|
        0 <= k < resources::all_writes().len() && (#[trigger] resources::all_writes()[k]).set
            == commands::set_in_frame(pass, slot) && shows_volume(resources::all_writes()[k])
            ==> shaders_wait(
            resources::bindings_of(
                resources::set_of(pass),
            )[resources::all_writes()[k].binding as int].stages,
            mask,
        )
}

/// Whether this holds of every pass that a list of commands binds.
pub open spec fn passes_wait(cs: Seq<Command>, slot: usize, mask: u32) -> bool {
    forall|i: int|
        0 <= i < cs.len() ==> ((#[trigger] cs[i]) matches Command::Bind(pass) ==> pass_waits(
            pass,
            slot,
            mask,
        ))
}

proof fn lemma_pass_waits(pass: Pass, slot: usize, mask: u32)
    requires
        slot < 2,
        resources::computes(pass) ==> mask == STAGE_FRAGMENT_AND_COMPUTE,
        mask == STAGE_FRAGMENT_AND_COMPUTE || mask == STAGE_FRAGMENT_SHADER,
    ensures
        pass_waits(pass, slot, mask),
{
    let all = resources::all_writes();
    assert(0x10u32 & 0x1 == 0 && 0x20u32 & 0x1 == 0 && 0x10u32 & 0x20 == 0 && 0x20u32 & 0x10
        == 0) by (bit_vector);
    assert(0x880u32 & 0x80 != 0 && 0x880u32 & 0x800 != 0 && 0x80u32 & 0x80 != 0) by (bit_vector);
    assert forall|k: int|
        0 <= k < all.len() && (#[trigger] all[k]).set == commands::set_in_frame(pass, slot)
            && shows_volume(all[k]) implies shaders_wait(
        resources::bindings_of(resources::set_of(pass))[all[k].binding as int].stages,
        mask,
    ) by {
        assert(all.len() == 22);
        assert(k == 0 || k == 1 || k == 2 || k == 3 || k == 4 || k == 5 || k == 6 || k == 7 || k
            == 8 || k == 9 || k == 10 || k == 11 || k == 12 || k == 13 || k == 14 || k == 15 || k
            == 16 || k == 17 || k == 18 || k == 19 || k == 20 || k == 21);
    }
}

proof fn lemma_concat_waits(a: Seq<Command>, b: Seq<Command>, slot: usize, mask: u32)
    ensures
        passes_wait(a, slot, mask) && passes_wait(b, slot, mask) ==> passes_wait(a + b, slot, mask),
        only_draws(a + b) <==> only_draws(a) && only_draws(b),
{
    if passes_wait(a, slot, mask) && passes_wait(b, slot, mask) {
        assert forall|i: int| 0 <= i < (a + b).len() implies ((#[trigger] (a
            + b)[i]) matches Command::Bind(pass) ==> pass_waits(pass, slot, mask)) by {
            if i < a.len() {
                assert((a + b)[i] == a[i]);
            } else {
                assert((a + b)[i] == b[i - a.len()]);
            }
        }
    }
    if only_draws(a + b) {
        assert forall|i: int| 0 <= i < a.len() implies (#[trigger] a[i]) !is Dispatch by {
            assert((a + b)[i] == a[i]);
        }
        assert forall|i: int| 0 <= i < b.len() implies (#[trigger] b[i]) !is Dispatch by {
            assert((a + b)[a.len() + i] == b[i]);
        }
    }
}

/// What `law_wait_is_early_enough` comes to for each part of the graphics commands.
proof fn lemma_parts_wait(r: RendererModel, alive: nat, quads: nat)
    requires
        r.wf(),
        r.use_async(),
    ensures
        passes_wait(volume_source(r), r.frame_index, reading_stages(r)),
        passes_wait(particle_work(r), r.frame_index, reading_stages(r)),
        passes_wait(begin_work(r.swap_extent), r.frame_index, reading_stages(r)),
        passes_wait(volume_draw(r), r.frame_index, reading_stages(r)),
        passes_wait(billboard_draw(r), r.frame_index, reading_stages(r)),
        passes_wait(wave_draw(r, alive), r.frame_index, reading_stages(r)),
        passes_wait(text_draw(r.swap_extent, quads), r.frame_index, reading_stages(r)),
        passes_wait(end_work(), r.frame_index, reading_stages(r)),
        only_draws(volume_source(r)),
        only_draws(particle_work(r)) <==> !r.do_particles(),
        only_draws(begin_work(r.swap_extent)),
        only_draws(volume_draw(r)),
        only_draws(billboard_draw(r)),
        only_draws(wave_draw(r, alive)),
        only_draws(text_draw(r.swap_extent, quads)),
        only_draws(end_work()),
{
    let slot = r.frame_index;
    let mask = reading_stages(r);
    if r.do_particles() {
        lemma_pass_waits(Pass::Particles, slot, mask);
        assert(particle_work(r)[2] is Dispatch);
    }
    lemma_pass_waits(Pass::Raymarch, slot, mask);
    lemma_pass_waits(Pass::Heatmap, slot, mask);
    lemma_pass_waits(Pass::Billboards, slot, mask);
    lemma_pass_waits(Pass::Waves, slot, mask);
    lemma_pass_waits(Pass::Text, slot, mask);
}

/// Where the volume comes from the compute queue, the drawing waits for it early enough:
/// every pass that the graphics queue runs reads the volume and the density maximum in
/// stages that wait. The compute stage waits only where the graphics queue computes.
pub proof fn law_wait_is_early_enough(r: RendererModel, alive: nat, quads: nat)
    requires
        r.wf(),
        r.use_async(),
    ensures
        graphics_waits(r).len() == 2,
        graphics_waits(r)[1].semaphore == Semaphore::Timeline,
        passes_wait(graphics_work(r, alive, quads), r.frame_index, graphics_waits(r)[1].stage),
        graphics_waits(r)[1].stage & STAGE_FRAGMENT_SHADER != 0,
        graphics_waits(r)[1].stage & STAGE_COMPUTE_SHADER != 0 <==> !only_draws(
            graphics_work(r, alive, quads),
        ),
{
    let slot = r.frame_index;
    let mask = reading_stages(r);
    assert(0x880u32 & 0x80 != 0 && 0x880u32 & 0x800 != 0 && 0x80u32 & 0x80 != 0 && 0x80u32 & 0x800
        == 0) by (bit_vector);
    lemma_parts_wait(r, alive, quads);
    let w1 = volume_source(r);
    lemma_concat_waits(w1, particle_work(r), slot, mask);
    let w2 = w1 + particle_work(r);
    lemma_concat_waits(w2, begin_work(r.swap_extent), slot, mask);
    let w3 = w2 + begin_work(r.swap_extent);
    lemma_concat_waits(w3, volume_draw(r), slot, mask);
    let w4 = w3 + volume_draw(r);
    lemma_concat_waits(w4, billboard_draw(r), slot, mask);
    let w5 = w4 + billboard_draw(r);
    lemma_concat_waits(w5, wave_draw(r, alive), slot, mask);
    let w6 = w5 + wave_draw(r, alive);
    lemma_concat_waits(w6, text_draw(r.swap_extent, quads), slot, mask);
    let w7 = w6 + text_draw(r.swap_extent, quads);
    lemma_concat_waits(w7, end_work(), slot, mask);
}

/// The images change hands between the second queue's family and the family that draws,
/// in this direction, exactly where the second queue is used and the two differ.
pub proof fn law_images_change_hands(r: RendererModel)
    ensures
        handover(r) is Some <==> {
            &&& r.perf_async
            &&& r.caps.async_compute_family is Some
            &&& r.caps.async_compute_family != Some(r.caps.graphics_family)
        },
        handover(r) matches Some((src, dst)) ==> r.caps.async_compute_family == Some(src) && dst
            == r.caps.graphics_family,
{
}

/// The number that the particles are moved by counts the frames that move them, and starts
/// over at zero.
pub proof fn law_counter_counts(r: RendererModel, steps: Seq<WaveStep>)
    ensures
        r.show_particles && r.frame_index == 0 ==> frame_done(r, steps).frame_counter == (
        r.frame_counter + 1) % 0x1_0000_0000,
        !(r.show_particles && r.frame_index == 0) ==> frame_done(r, steps).frame_counter
            == r.frame_counter,
{
}

/// The text over the picture is the overlay for what is shown: the frame rate that was
/// handed in, the adapter that draws, and the switches as they stand.
pub proof fn law_text_is_the_overlay(
    r: RendererModel,
    image: u32,
    steps: Seq<WaveStep>,
    fps: Seq<char>,
)
    ensures
        ({
            let lines = overlay::overlay_models(fps, r.caps, r.perf_async, r.perf_mipskip);
            let all = overlay::lines_quads(lines);
            let shown = frame_plan(r, image, steps, fps).text;
            &&& shown.len() == if all.len() < 1024 {
                all.len()
            } else {
                1024
            }
            &&& forall|i: int| 0 <= i < shown.len() ==> #[trigger] shown[i] == all[i]
        }),
{
}

/// The shells after a frame are those that the step of time left.
pub proof fn law_frames_step_the_waves(r: RendererModel, steps: Seq<WaveStep>)
    ensures
        frame_done(r, steps).waves == waves::waves_after(r.waves, steps),
        frame_done(r, steps).frame_index == (r.frame_index + 1) % 2,
{
}

} // verus!
