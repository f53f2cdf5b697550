//! The viewer's state between frames, and the switches that change it.

use crate::device::DeviceCaps;
use crate::presets::{OrbitalComponent, Preset, PresetModel, START_DENSITY_BITS};
use crate::resources::FRAMES_IN_FLIGHT;
use crate::swapchain::Extent;
use crate::waves;
use crate::waves::{emit, Triple, Wave};
use vstd::prelude::*;

verus! {

/// How the volume is shown.
#[derive(Clone, Copy, PartialEq, Eq, Debug, Structural)]
pub enum ViewMode {
    Volume,
    Heatmap,
}

/// The plane that the heatmap cuts along.
#[derive(Clone, Copy, PartialEq, Eq, Debug, Structural)]
pub enum SliceAxis {
    XY,
    XZ,
    YZ,
}

/// What the heatmap's colors stand for.
#[derive(Clone, Copy, PartialEq, Eq, Debug, Structural)]
pub enum ColorMode {
    Density,
    Real,
    Phase,
}

/// The number by which the shaders know a view mode.
pub open spec fn view_number(v: ViewMode) -> i32 {
    match v {
        ViewMode::Volume => 0,
        ViewMode::Heatmap => 1,
    }
}

/// The number by which the shaders know an axis.
pub open spec fn axis_number(a: SliceAxis) -> i32 {
    match a {
        SliceAxis::XY => 0,
        SliceAxis::XZ => 1,
        SliceAxis::YZ => 2,
    }
}

/// The number by which the shaders know a color mode.
pub open spec fn color_number(c: ColorMode) -> i32 {
    match c {
        ColorMode::Density => 0,
        ColorMode::Real => 1,
        ColorMode::Phase => 2,
    }
}

/// The number by which the shaders know a switch.
pub open spec fn flag_number(b: bool) -> i32 {
    if b {
        1
    } else {
        0
    }
}

/// The other view mode.
pub open spec fn other_view(v: ViewMode) -> ViewMode {
    match v {
        ViewMode::Volume => ViewMode::Heatmap,
        ViewMode::Heatmap => ViewMode::Volume,
    }
}

/// The axis that comes next.
pub open spec fn next_axis(a: SliceAxis) -> SliceAxis {
    match a {
        SliceAxis::XY => SliceAxis::XZ,
        SliceAxis::XZ => SliceAxis::YZ,
        SliceAxis::YZ => SliceAxis::XY,
    }
}

/// The color mode that comes next.
pub open spec fn next_color(c: ColorMode) -> ColorMode {
    match c {
        ColorMode::Density => ColorMode::Real,
        ColorMode::Real => ColorMode::Phase,
        ColorMode::Phase => ColorMode::Density,
    }
}

/// The viewer's state between frames. Lengths, angles and times are kept beside it.
pub struct VulkanRenderer {
    pub caps: DeviceCaps,
    pub components: Vec<OrbitalComponent>,
    /// The density that is drawn brightest, as the bit pattern of a float.
    pub max_density: u32,
    pub auto_orbit: bool,
    pub view_mode: ViewMode,
    pub slice_axis: SliceAxis,
    pub color_mode: ColorMode,
    pub show_contour: bool,
    pub show_volume: bool,
    pub show_particles: bool,
    pub show_waves: bool,
    pub perf_mipskip: bool,
    pub perf_async: bool,
    pub waves: Vec<Wave>,
    pub swap_extent: Extent,
    pub swap_image_count: usize,
    pub needs_particle_init: bool,
    pub frame_counter: u32,
    pub frame_index: usize,
    /// Of each frame slot, whether its images were computed.
    pub initialized: Vec<bool>,
    /// The last value that the compute queue was told to signal.
    pub timeline_value: u64,
    pub fps_accum_frames: u32,
}

/// The mathematical content of the viewer's state.
#[verifier::ext_equal]
pub struct RendererModel {
    pub caps: DeviceCaps,
    pub components: Seq<OrbitalComponent>,
    pub max_density: u32,
    pub auto_orbit: bool,
    pub view_mode: ViewMode,
    pub slice_axis: SliceAxis,
    pub color_mode: ColorMode,
    pub show_contour: bool,
    pub show_volume: bool,
    pub show_particles: bool,
    pub show_waves: bool,
    pub perf_mipskip: bool,
    pub perf_async: bool,
    pub waves: Seq<Wave>,
    pub swap_extent: Extent,
    pub swap_image_count: usize,
    pub needs_particle_init: bool,
    pub frame_counter: u32,
    pub frame_index: usize,
    pub initialized: Seq<bool>,
    pub timeline_value: u64,
    pub fps_accum_frames: u32,
}

impl View for VulkanRenderer {
    type V = RendererModel;

    open spec fn view(&self) -> RendererModel {
        RendererModel {
            caps: self.caps,
            components: self.components@,
            max_density: self.max_density,
            auto_orbit: self.auto_orbit,
            view_mode: self.view_mode,
            slice_axis: self.slice_axis,
            color_mode: self.color_mode,
            show_contour: self.show_contour,
            show_volume: self.show_volume,
            show_particles: self.show_particles,
            show_waves: self.show_waves,
            perf_mipskip: self.perf_mipskip,
            perf_async: self.perf_async,
            waves: self.waves@,
            swap_extent: self.swap_extent,
            swap_image_count: self.swap_image_count,
            needs_particle_init: self.needs_particle_init,
            frame_counter: self.frame_counter,
            frame_index: self.frame_index,
            initialized: self.initialized@,
            timeline_value: self.timeline_value,
            fps_accum_frames: self.fps_accum_frames,
        }
    }
}

impl RendererModel {
    /// Whether the frame slots are in order.
    pub open spec fn wf(self) -> bool {
        self.initialized.len() == FRAMES_IN_FLIGHT && self.frame_index < FRAMES_IN_FLIGHT
    }

    /// Whether the volume is computed on the second queue.
    pub open spec fn use_async(self) -> bool {
        self.perf_async && self.caps.async_compute_family is Some
    }

    /// Whether the particles move in this frame.
    pub open spec fn do_particles(self) -> bool {
        self.show_particles && self.frame_index == 0
    }
}

/// The state that the viewer starts in.
pub open spec fn initial_state(
    caps: DeviceCaps,
    swap_extent: Extent,
    swap_image_count: usize,
) -> RendererModel {
    RendererModel {
        caps,
        components: Seq::empty(),
        max_density: START_DENSITY_BITS,
        auto_orbit: true,
        view_mode: ViewMode::Volume,
        slice_axis: SliceAxis::XZ,
        color_mode: ColorMode::Real,
        show_contour: true,
        show_volume: true,
        show_particles: false,
        show_waves: true,
        perf_mipskip: true,
        perf_async: true,
        waves: Seq::empty(),
        swap_extent,
        swap_image_count,
        needs_particle_init: true,
        frame_counter: 0,
        frame_index: 0,
        initialized: seq![false, false],
        timeline_value: 0,
        fps_accum_frames: 0,
    }
}

/// The state after the second queue was switched on or off, where there is one.
pub open spec fn async_toggled(r: RendererModel) -> RendererModel {
    if r.caps.async_compute_family is Some {
        RendererModel {
            perf_async: !r.perf_async,
            initialized: Seq::new(r.initialized.len(), |i: int| false),
            ..r
        }
    } else {
        r
    }
}

/// Whether the device has to be idle where the second queue is switched on or off: where
/// there is one to switch.
pub open spec fn idle_due(r: RendererModel) -> bool {
    r.caps.async_compute_family is Some
}

/// The state after a preset was chosen.
pub open spec fn preset_applied(r: RendererModel, p: PresetModel) -> RendererModel {
    RendererModel {
        components: p.components,
        max_density: p.max_density,
        needs_particle_init: true,
        ..r
    }
}

/// The state after a shell was started.
pub open spec fn wave_emitted(r: RendererModel, w: Wave) -> RendererModel {
    RendererModel { waves: waves::emitted(r.waves, w), ..r }
}

/// The state after one more frame was counted, and the number of frames that the span had
/// where it is over.
pub open spec fn frame_counted(r: RendererModel, window_over: bool) -> (
    RendererModel,
    Option<u32>,
) {
    let frames = (r.fps_accum_frames + 1) as u32;
    if window_over {
        (RendererModel { fps_accum_frames: 0, ..r }, Some(frames))
    } else {
        (RendererModel { fps_accum_frames: frames, ..r }, None)
    }
}

impl VulkanRenderer {
    /// The state that the viewer starts in.
    pub fn new(caps: DeviceCaps, swap_extent: Extent, swap_image_count: usize) -> (r: Self)
        ensures
            r@ == initial_state(caps, swap_extent, swap_image_count),
            r@.wf(),
    {
        let r = VulkanRenderer {
            caps,
            components: Vec::new(),
            max_density: START_DENSITY_BITS,
            auto_orbit: true,
            view_mode: ViewMode::Volume,
            slice_axis: SliceAxis::XZ,
            color_mode: ColorMode::Real,
            show_contour: true,
            show_volume: true,
            show_particles: false,
            show_waves: true,
            perf_mipskip: true,
            perf_async: true,
            waves: Vec::new(),
            swap_extent,
            swap_image_count,
            needs_particle_init: true,
            frame_counter: 0,
            frame_index: 0,
            initialized: vec![false, false],
            timeline_value: 0,
            fps_accum_frames: 0,
        };
        assert(r@ =~= initial_state(caps, swap_extent, swap_image_count));
        r
    }

    /// Switches between the volume and the heatmap.
    pub fn toggle_view_mode(&mut self)
        ensures
            final(self)@ == (RendererModel {
                view_mode: other_view(old(self)@.view_mode),
                ..old(self)@
            }),
    {
        self.view_mode = match self.view_mode {
            ViewMode::Volume => ViewMode::Heatmap,
            ViewMode::Heatmap => ViewMode::Volume,
        };
    }

    /// Goes on to the next plane.
    pub fn cycle_slice_axis(&mut self)
        ensures
            final(self)@ == (RendererModel {
                slice_axis: next_axis(old(self)@.slice_axis),
                ..old(self)@
            }),
    {
        self.slice_axis = match self.slice_axis {
            SliceAxis::XY => SliceAxis::XZ,
            SliceAxis::XZ => SliceAxis::YZ,
            SliceAxis::YZ => SliceAxis::XY,
        };
    }

    /// Goes on to the next meaning of the colors.
    pub fn cycle_color_mode(&mut self)
        ensures
            final(self)@ == (RendererModel {
                color_mode: next_color(old(self)@.color_mode),
                ..old(self)@
            }),
    {
        self.color_mode = match self.color_mode {
            ColorMode::Density => ColorMode::Real,
            ColorMode::Real => ColorMode::Phase,
            ColorMode::Phase => ColorMode::Density,
        };
    }

    /// Has the particles placed anew when they are next moved.
    pub fn request_particle_reseed(&mut self)
        ensures
            final(self)@ == (RendererModel { needs_particle_init: true, ..old(self)@ }),
    {
        self.needs_particle_init = true;
    }

    /// Switches the skipping of empty space on or off.
    pub fn toggle_perf_mipskip(&mut self)
        ensures
            final(self)@ == (RendererModel {
                perf_mipskip: !old(self)@.perf_mipskip,
                ..old(self)@
            }),
    {
        self.perf_mipskip = !self.perf_mipskip;
    }

    /// Switches the second queue on or off, where there is one. Every frame's images are
    /// computed from scratch afterwards. Says whether the device has to be idle before the
    /// next frame.
    #[must_use]
    pub fn toggle_perf_async(&mut self) -> (wait: bool)
        ensures
            wait == idle_due(old(self)@),
            final(self)@ == async_toggled(old(self)@),
    {
        if !self.caps.has_async_compute() {
            return false;
        }
        self.perf_async = !self.perf_async;
        let mut cleared: Vec<bool> = Vec::new();
        for i in 0..self.initialized.len()
            invariant
                cleared@ == Seq::new(i as nat, |k: int| false),
        {
            cleared.push(false);
            assert(cleared@ =~= Seq::new((i + 1) as nat, |k: int| false));
        }
        self.initialized = cleared;
        assert(self@ =~= async_toggled(old(self)@));
        true
    }

    /// Starts a shell. Floats are given by their bit patterns.
    pub fn emit_wave(&mut self, origin: Triple, color: Triple, max_radius: u32, speed: u32)
        ensures
            final(self)@ == wave_emitted(
                old(self)@,
                waves::fresh_wave(origin, color, max_radius, speed),
            ),
    {
        emit(&mut self.waves, origin, color, max_radius, speed);
    }

    /// Shows a preset; the particles are placed anew.
    pub fn apply_preset(&mut self, p: &Preset)
        ensures
            final(self)@ == preset_applied(old(self)@, p@),
    {
        let mut components: Vec<OrbitalComponent> = Vec::new();
        for i in 0..p.components.len()
            invariant
                components@ == p.components@.take(i as int),
        {
            components.push(p.components[i]);
            assert(components@ =~= p.components@.take(i + 1));
        }
        assert(components@ =~= p.components@);
        self.components = components;
        self.max_density = p.max_density;
        self.request_particle_reseed();
    }

    /// Whether the next frame is the first of the span over which the frame rate is
    /// averaged.
    pub fn starts_fps_window(&self) -> (yes: bool)
        ensures
            yes == (self@.fps_accum_frames == 0),
    {
        self.fps_accum_frames == 0
    }

    /// Counts a frame. Where the span is over, gives the number of frames in it and
    /// starts a new one.
    pub fn count_frame(&mut self, window_over: bool) -> (frames: Option<u32>)
        requires
            old(self)@.fps_accum_frames < u32::MAX,
        ensures
            frames == (if window_over {
                Some((old(self)@.fps_accum_frames + 1) as u32)
            } else {
                None
            }),
            final(self)@ == (RendererModel {
                fps_accum_frames: if window_over {
                    0
                } else {
                    (old(self)@.fps_accum_frames + 1) as u32
                },
                ..old(self)@
            }),
            (final(self)@, frames) == frame_counted(old(self)@, window_over),
    {
        self.fps_accum_frames = self.fps_accum_frames + 1;
        if window_over {
            let frames: u32 = self.fps_accum_frames;
            self.fps_accum_frames = 0;
            Some(frames)
        } else {
            None
        }
    }
}

/// The queues that work on the frames never change on a busy device: a wait is due exactly
/// where the switch changes whether the second one is used. Where none is due, the switch
/// changes nothing.
pub proof fn law_queues_change_on_an_idle_device(r: RendererModel)
    ensures
        idle_due(r) <==> async_toggled(r).use_async() != r.use_async(),
        idle_due(r) <==> async_toggled(r).perf_async != r.perf_async,
        !idle_due(r) ==> async_toggled(r) == r,
{
}

/// Cycling comes round: the view mode after two steps, plane and colors after three.
pub proof fn law_switches_come_round(v: ViewMode, a: SliceAxis, c: ColorMode)
    ensures
        other_view(v) != v,
        other_view(other_view(v)) == v,
        next_axis(a) != a,
        next_axis(next_axis(a)) != a,
        next_axis(next_axis(next_axis(a))) == a,
        next_color(c) != c,
        next_color(next_color(c)) != c,
        next_color(next_color(next_color(c))) == c,
        axis_number(next_axis(a)) == (axis_number(a) + 1) % 3,
        color_number(next_color(c)) == (color_number(c) + 1) % 3,
{
}

/// A new viewer turns about the whole volume, with shells and without particles; a slice
/// would be cut along x and z and show the real part with its contours. Both ways to save
/// work are on, nothing is computed yet, and no state is chosen.
pub proof fn law_viewer_starts_out(caps: DeviceCaps, extent: Extent, images: usize)
    ensures
        ({
            let r = initial_state(caps, extent, images);
            &&& r.caps == caps && r.swap_extent == extent && r.swap_image_count == images
            &&& r.auto_orbit && r.show_volume && r.show_waves && !r.show_particles
            &&& r.view_mode is Volume && r.slice_axis is XZ && r.color_mode is Real
            &&& r.show_contour && r.perf_mipskip && r.perf_async
            &&& r.components.len() == 0 && r.waves.len() == 0
            &&& r.needs_particle_init && r.frame_index == 0
            &&& r.frame_counter == 0 && r.timeline_value == 0 && r.fps_accum_frames == 0
            &&& r.initialized.len() == 2 && !r.initialized[0] && !r.initialized[1]
        }),
{
}

/// Switching the second queue on or off has the images of every slot computed anew and
/// changes nothing else; switching it twice brings it back.
pub proof fn law_async_switch(r: RendererModel)
    ensures
        ({
            let once = async_toggled(r);
            let twice = async_toggled(once);
            &&& r.caps.async_compute_family is Some ==> once.perf_async != r.perf_async
            &&& r.caps.async_compute_family is Some ==> forall|i: int|
                0 <= i < r.initialized.len() ==> !#[trigger] once.initialized[i]
            &&& once.initialized.len() == r.initialized.len()
            &&& once == (RendererModel {
                perf_async: once.perf_async,
                initialized: once.initialized,
                ..r
            })
            &&& twice.perf_async == r.perf_async
        }),
{
}

/// A chosen preset is what is shown from then on, with its terms and its brightness, and
/// the particles are placed anew. Nothing else changes.
pub proof fn law_preset_is_shown(r: RendererModel, p: PresetModel)
    ensures
        preset_applied(r, p).components == p.components,
        preset_applied(r, p).max_density == p.max_density,
        preset_applied(r, p).needs_particle_init,
        (RendererModel {
            components: r.components,
            max_density: r.max_density,
            needs_particle_init: r.needs_particle_init,
            ..preset_applied(r, p)
        }) == r,
{
}

/// A shell that is started joins the others, and nothing else changes.
pub proof fn law_emitting_adds_a_wave(r: RendererModel, w: Wave)
    ensures
        wave_emitted(r, w).waves.len() > 0,
        wave_emitted(r, w).waves.last() == w,
        (RendererModel { waves: r.waves, ..wave_emitted(r, w) }) == r,
{
}

/// The order in which the planes and the colors come, and the numbers by which the shaders
/// know them.
pub proof fn law_modes_are_numbered()
    ensures
        view_number(ViewMode::Volume) == 0,
        view_number(ViewMode::Heatmap) == 1,
        axis_number(SliceAxis::XY) == 0,
        axis_number(SliceAxis::XZ) == 1,
        axis_number(SliceAxis::YZ) == 2,
        color_number(ColorMode::Density) == 0,
        color_number(ColorMode::Real) == 1,
        color_number(ColorMode::Phase) == 2,
        flag_number(false) == 0,
        flag_number(true) == 1,
        next_axis(SliceAxis::XY) == SliceAxis::XZ,
        next_axis(SliceAxis::XZ) == SliceAxis::YZ,
        next_color(ColorMode::Density) == ColorMode::Real,
        next_color(ColorMode::Real) == ColorMode::Phase,
{
}

/// The volume is computed on the second queue where there is one and it is switched on;
/// the particles move in every other frame, where they are shown.
pub proof fn law_what_frames_do(r: RendererModel)
    ensures
        r.use_async() <==> r.perf_async && r.caps.async_compute_family is Some,
        r.do_particles() <==> r.show_particles && r.frame_index == 0,
        r.wf() <==> r.initialized.len() == 2 && r.frame_index < 2,
{
}

/// Every frame is counted once: what a span had and what is counted so far make up one
/// frame more than before. A span that is over says how many frames it had, and the next
/// one starts from nothing; nothing else changes.
pub proof fn law_every_frame_is_counted(r: RendererModel, window_over: bool)
    requires
        r.fps_accum_frames < u32::MAX,
    ensures
        ({
            let (after, frames) = frame_counted(r, window_over);
            let told: int = match frames {
                Some(n) => n as int,
                None => 0,
            };
            &&& told + after.fps_accum_frames == r.fps_accum_frames + 1
            &&& frames is Some <==> window_over
            &&& window_over ==> after.fps_accum_frames == 0
            &&& (RendererModel { fps_accum_frames: r.fps_accum_frames, ..after }) == r
        }),
{
}

} // verus!
