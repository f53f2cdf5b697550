//! How the objects on the device come up and go down again.

use crate::gpu;
use crate::gpu::{MEMORY_DEVICE_LOCAL, MEMORY_HOST_COHERENT, MEMORY_HOST_VISIBLE};
use crate::resources;
use crate::resources::{
    frame_writes, particle_writes, text_writes, wave_writes, BufferName, DescriptorWrite, ImageName,
    Pass, SamplerName, SetKind, SetName, Source,
};
use vstd::prelude::*;

verus! {

/// An object that has to be destroyed by itself.
#[derive(Clone, Copy, PartialEq, Eq, Debug, Hash, Structural)]
pub enum Object {
    Instance,
    Surface,
    Device,
    /// The semaphore that counts the frames computed on the second queue.
    Timeline,
    /// A frame's command pool on the second queue.
    AsyncPool(usize),
    Swapchain,
    SwapView(usize),
    Sampler(SamplerName),
    DescriptorPool,
    SetLayout(SetKind),
    PipelineLayout(SetKind),
    Pipeline(Pass),
    CommandPool(usize),
    ImageAvailable(usize),
    RenderFinished(usize),
    InFlightFence(usize),
    Buffer(BufferName),
    BufferMemory(BufferName),
    Image(ImageName),
    ImageMemory(ImageName),
    ImageView(ImageName),
}

/// A step of bringing things up.
#[derive(Clone, Copy, PartialEq, Eq, Debug, Structural)]
pub enum Setup {
    Create(Object),
    /// A buffer with memory that the host writes to, mapped for good.
    HostBuffer(BufferName),
    /// A buffer with memory of the device.
    DeviceBuffer(BufferName),
    /// A buffer with memory of the device that is filled once.
    UploadedBuffer(BufferName),
    /// An image with its memory and view that shaders fill.
    StorageImage(ImageName),
    /// An image with its memory and view that is filled once.
    UploadedImage(ImageName),
    /// Takes a descriptor set from the pool.
    Allocate(SetName),
    Write(DescriptorWrite),
}

/// A step of taking things down.
#[derive(Clone, Copy, PartialEq, Eq, Debug, Structural)]
pub enum Teardown {
    /// Waits until the device has nothing left to do.
    WaitIdle,
    Unmap(BufferName),
    Destroy(Object),
}

/// Whether a buffer stays mapped while the viewer runs.
pub open spec fn is_mapped(b: BufferName) -> bool {
    match b {
        BufferName::Camera(slot) => slot < 2,
        BufferName::Components(slot) => slot < 2,
        BufferName::Waves => true,
        BufferName::Text => true,
        _ => false,
    }
}

/// Whether there is such a buffer.
pub open spec fn is_buffer(b: BufferName) -> bool {
    match b {
        BufferName::Camera(slot) => slot < 2,
        BufferName::Components(slot) => slot < 2,
        _ => true,
    }
}

/// Whether there is such an image.
pub open spec fn is_image(i: ImageName) -> bool {
    match i {
        ImageName::Volume(slot) => slot < 2,
        ImageName::PsiMax(slot) => slot < 2,
        ImageName::Font => true,
    }
}

/// Whether there is such an object, given whether there is a second queue and how
/// many images the swapchain has.
pub open spec fn is_object(o: Object, has_async: bool, views: nat) -> bool {
    match o {
        Object::Timeline => has_async,
        Object::AsyncPool(slot) => has_async && slot < 2,
        Object::SwapView(i) => i < views,
        Object::CommandPool(slot) => slot < 2,
        Object::ImageAvailable(slot) => slot < 2,
        Object::RenderFinished(slot) => slot < 2,
        Object::InFlightFence(slot) => slot < 2,
        Object::Buffer(b) => is_buffer(b),
        Object::BufferMemory(b) => is_buffer(b),
        Object::Image(i) => is_image(i),
        Object::ImageMemory(i) => is_image(i),
        Object::ImageView(i) => is_image(i),
        _ => true,
    }
}

/// Whether a step brings up an object.
pub open spec fn makes(step: Setup, o: Object) -> bool {
    match step {
        Setup::Create(p) => o == p,
        Setup::HostBuffer(b) => o == Object::Buffer(b) || o == Object::BufferMemory(b),
        Setup::DeviceBuffer(b) => o == Object::Buffer(b) || o == Object::BufferMemory(b),
        Setup::UploadedBuffer(b) => o == Object::Buffer(b) || o == Object::BufferMemory(b),
        Setup::StorageImage(i) => o == Object::Image(i) || o == Object::ImageMemory(i) || o
            == Object::ImageView(i),
        Setup::UploadedImage(i) => o == Object::Image(i) || o == Object::ImageMemory(i) || o
            == Object::ImageView(i),
        Setup::Allocate(_) => false,
        Setup::Write(_) => false,
    }
}

/// Whether a step cannot be taken before an object is there.
pub open spec fn needs(step: Setup, p: Object) -> bool {
    match step {
        Setup::Create(o) => match o {
            Object::Instance => false,
            Object::Surface => p == Object::Instance,
            Object::Device => p == Object::Instance || p == Object::Surface,
            Object::Swapchain => p == Object::Device || p == Object::Surface,
            Object::SwapView(_) => p == Object::Device || p == Object::Swapchain,
            Object::PipelineLayout(kind) => p == Object::Device || p == Object::SetLayout(kind),
            Object::Pipeline(pass) => {
                ||| p == Object::Device
                ||| p == Object::PipelineLayout(resources::set_of(pass))
                ||| !resources::computes(pass) && p == Object::Swapchain
            },
            _ => p == Object::Device,
        },
        Setup::HostBuffer(_) => p == Object::Device,
        Setup::DeviceBuffer(_) => p == Object::Device,
        Setup::UploadedBuffer(_) => p == Object::Device,
        Setup::StorageImage(_) => p == Object::Device,
        Setup::UploadedImage(_) => p == Object::Device,
        Setup::Allocate(set) => p == Object::DescriptorPool || p == Object::SetLayout(set.kind),
        Setup::Write(w) => match w.source {
            Source::Image { image, sampler, layout } => {
                ||| p == Object::ImageView(image)
                ||| sampler matches Some(name) && p == Object::Sampler(name)
            },
            Source::Buffer { buffer, range } => p == Object::Buffer(buffer),
        },
    }
}

/// Whether an object has to go before another: a view before its image, images and
/// buffers before their memory, pipelines before their layouts, what lies on the
/// device before the device, and all of it before the instance.
pub open spec fn rests_on(o: Object, p: Object) -> bool {
    match p {
        Object::Instance => o != Object::Instance,
        Object::Surface => o == Object::Swapchain,
        Object::Device => o != Object::Instance && o != Object::Surface && o != Object::Device,
        Object::Swapchain => o is SwapView,
        Object::SetLayout(kind) => o == Object::PipelineLayout(kind),
        Object::PipelineLayout(kind) => o matches Object::Pipeline(pass) && resources::set_of(pass)
            == kind,
        Object::BufferMemory(b) => o == Object::Buffer(b),
        Object::ImageMemory(i) => o == Object::Image(i) || o == Object::ImageView(i),
        Object::Image(i) => o == Object::ImageView(i),
        _ => false,
    }
}

/// The steps that fill descriptor sets.
pub open spec fn write_steps(writes: Seq<DescriptorWrite>) -> Seq<Setup> {
    writes.map_values(|w: DescriptorWrite| Setup::Write(w))
}

/// The sampler, the pool, and the pipelines that show the volume.
pub open spec fn base_setup() -> Seq<Setup> {
    seq![
        Setup::Create(Object::Sampler(SamplerName::Volume)),
        Setup::Create(Object::DescriptorPool),
        Setup::Create(Object::SetLayout(SetKind::Wavefunction)),
        Setup::Create(Object::PipelineLayout(SetKind::Wavefunction)),
        Setup::Create(Object::Pipeline(Pass::Wavefunction)),
        Setup::Create(Object::SetLayout(SetKind::Mipmap)),
        Setup::Create(Object::PipelineLayout(SetKind::Mipmap)),
        Setup::Create(Object::Pipeline(Pass::Mipmap)),
        Setup::Create(Object::SetLayout(SetKind::Volume)),
        Setup::Create(Object::PipelineLayout(SetKind::Volume)),
        Setup::Create(Object::Pipeline(Pass::Raymarch)),
        Setup::Create(Object::Pipeline(Pass::Heatmap)),
    ]
}

/// What a frame has for itself.
pub open spec fn frame_setup(slot: usize) -> Seq<Setup> {
    seq![
        Setup::Create(Object::CommandPool(slot)),
        Setup::Create(Object::ImageAvailable(slot)),
        Setup::Create(Object::RenderFinished(slot)),
        Setup::Create(Object::InFlightFence(slot)),
        Setup::HostBuffer(BufferName::Camera(slot)),
        Setup::HostBuffer(BufferName::Components(slot)),
        Setup::StorageImage(ImageName::Volume(slot)),
        Setup::StorageImage(ImageName::PsiMax(slot)),
        Setup::Allocate(SetName { kind: SetKind::Wavefunction, slot }),
        Setup::Allocate(SetName { kind: SetKind::Mipmap, slot }),
        Setup::Allocate(SetName { kind: SetKind::Volume, slot }),
    ] + write_steps(resources::frame_writes_of(slot))
}

/// The particles.
pub open spec fn particle_setup() -> Seq<Setup> {
    seq![
        Setup::DeviceBuffer(BufferName::Particles),
        Setup::Create(Object::SetLayout(SetKind::Particles)),
        Setup::Create(Object::PipelineLayout(SetKind::Particles)),
        Setup::Create(Object::Pipeline(Pass::Particles)),
        Setup::Allocate(SetName { kind: SetKind::Particles, slot: 0 }),
        Setup::Create(Object::SetLayout(SetKind::Billboards)),
        Setup::Create(Object::PipelineLayout(SetKind::Billboards)),
        Setup::Create(Object::Pipeline(Pass::Billboards)),
        Setup::Allocate(SetName { kind: SetKind::Billboards, slot: 0 }),
    ] + write_steps(resources::particle_writes_of())
}

/// The waves.
pub open spec fn wave_setup() -> Seq<Setup> {
    seq![
        Setup::UploadedBuffer(BufferName::WaveVertices),
        Setup::UploadedBuffer(BufferName::WaveIndices),
        Setup::HostBuffer(BufferName::Waves),
        Setup::Create(Object::SetLayout(SetKind::Waves)),
        Setup::Create(Object::PipelineLayout(SetKind::Waves)),
        Setup::Create(Object::Pipeline(Pass::Waves)),
        Setup::Allocate(SetName { kind: SetKind::Waves, slot: 0 }),
    ] + write_steps(resources::wave_writes_of())
}

/// The text.
pub open spec fn text_setup() -> Seq<Setup> {
    seq![
        Setup::UploadedImage(ImageName::Font),
        Setup::Create(Object::Sampler(SamplerName::Font)),
        Setup::HostBuffer(BufferName::Text),
        Setup::Create(Object::SetLayout(SetKind::Text)),
        Setup::Create(Object::PipelineLayout(SetKind::Text)),
        Setup::Create(Object::Pipeline(Pass::Text)),
        Setup::Allocate(SetName { kind: SetKind::Text, slot: 0 }),
    ] + write_steps(resources::text_writes_of())
}

/// The first steps, up to the swapchain.
pub open spec fn device_setup(has_async: bool) -> Seq<Setup> {
    seq![
        Setup::Create(Object::Instance),
        Setup::Create(Object::Surface),
        Setup::Create(Object::Device),
    ] + (if has_async {
        seq![
            Setup::Create(Object::Timeline),
            Setup::Create(Object::AsyncPool(0)),
            Setup::Create(Object::AsyncPool(1)),
        ]
    } else {
        Seq::empty()
    }) + seq![Setup::Create(Object::Swapchain)]
}

/// A view for each image of the swapchain.
pub open spec fn view_setup(views: nat) -> Seq<Setup> {
    Seq::new(views, |i: int| Setup::Create(Object::SwapView(i as usize)))
}

/// The steps that follow on the swapchain.
pub open spec fn scene_setup(views: nat) -> Seq<Setup> {
    view_setup(views) + base_setup() + frame_setup(0) + frame_setup(1) + particle_setup()
        + wave_setup() + text_setup()
}

/// All steps.
pub open spec fn setup(has_async: bool, views: nat) -> Seq<Setup> {
    device_setup(has_async) + scene_setup(views)
}

/// The text is the first to go.
pub open spec fn text_teardown() -> Seq<Teardown> {
    seq![
        Teardown::Destroy(Object::Pipeline(Pass::Text)),
        Teardown::Destroy(Object::PipelineLayout(SetKind::Text)),
        Teardown::Destroy(Object::SetLayout(SetKind::Text)),
        Teardown::Unmap(BufferName::Text),
        Teardown::Destroy(Object::Buffer(BufferName::Text)),
        Teardown::Destroy(Object::BufferMemory(BufferName::Text)),
        Teardown::Destroy(Object::Sampler(SamplerName::Font)),
        Teardown::Destroy(Object::ImageView(ImageName::Font)),
        Teardown::Destroy(Object::Image(ImageName::Font)),
        Teardown::Destroy(Object::ImageMemory(ImageName::Font)),
    ]
}

/// What a frame had for itself.
pub open spec fn frame_teardown(slot: usize) -> Seq<Teardown> {
    seq![
        Teardown::Unmap(BufferName::Camera(slot)),
        Teardown::Unmap(BufferName::Components(slot)),
        Teardown::Destroy(Object::Buffer(BufferName::Camera(slot))),
        Teardown::Destroy(Object::BufferMemory(BufferName::Camera(slot))),
        Teardown::Destroy(Object::Buffer(BufferName::Components(slot))),
        Teardown::Destroy(Object::BufferMemory(BufferName::Components(slot))),
        Teardown::Destroy(Object::ImageView(ImageName::Volume(slot))),
        Teardown::Destroy(Object::Image(ImageName::Volume(slot))),
        Teardown::Destroy(Object::ImageMemory(ImageName::Volume(slot))),
        Teardown::Destroy(Object::ImageView(ImageName::PsiMax(slot))),
        Teardown::Destroy(Object::Image(ImageName::PsiMax(slot))),
        Teardown::Destroy(Object::ImageMemory(ImageName::PsiMax(slot))),
        Teardown::Destroy(Object::InFlightFence(slot)),
        Teardown::Destroy(Object::ImageAvailable(slot)),
        Teardown::Destroy(Object::RenderFinished(slot)),
        Teardown::Destroy(Object::CommandPool(slot)),
    ]
}

/// What the second queue had for itself.
pub open spec fn async_teardown() -> Seq<Teardown> {
    seq![
        Teardown::Destroy(Object::AsyncPool(0)),
        Teardown::Destroy(Object::AsyncPool(1)),
        Teardown::Destroy(Object::Timeline),
    ]
}

/// The pool, and the pipelines that show the volume.
pub open spec fn base_teardown() -> Seq<Teardown> {
    seq![
        Teardown::Destroy(Object::DescriptorPool),
        Teardown::Destroy(Object::Pipeline(Pass::Heatmap)),
        Teardown::Destroy(Object::Pipeline(Pass::Raymarch)),
        Teardown::Destroy(Object::PipelineLayout(SetKind::Volume)),
        Teardown::Destroy(Object::SetLayout(SetKind::Volume)),
        Teardown::Destroy(Object::Pipeline(Pass::Mipmap)),
        Teardown::Destroy(Object::PipelineLayout(SetKind::Mipmap)),
        Teardown::Destroy(Object::SetLayout(SetKind::Mipmap)),
        Teardown::Destroy(Object::Pipeline(Pass::Wavefunction)),
        Teardown::Destroy(Object::PipelineLayout(SetKind::Wavefunction)),
        Teardown::Destroy(Object::SetLayout(SetKind::Wavefunction)),
        Teardown::Destroy(Object::Sampler(SamplerName::Volume)),
    ]
}

/// The rest, the instance last.
pub open spec fn rest_teardown() -> Seq<Teardown> {
    seq![
        Teardown::Destroy(Object::Swapchain),
        Teardown::Destroy(Object::Pipeline(Pass::Particles)),
        Teardown::Destroy(Object::PipelineLayout(SetKind::Particles)),
        Teardown::Destroy(Object::SetLayout(SetKind::Particles)),
        Teardown::Destroy(Object::Pipeline(Pass::Billboards)),
        Teardown::Destroy(Object::PipelineLayout(SetKind::Billboards)),
        Teardown::Destroy(Object::SetLayout(SetKind::Billboards)),
        Teardown::Destroy(Object::Buffer(BufferName::Particles)),
        Teardown::Destroy(Object::BufferMemory(BufferName::Particles)),
        Teardown::Destroy(Object::Pipeline(Pass::Waves)),
        Teardown::Destroy(Object::PipelineLayout(SetKind::Waves)),
        Teardown::Destroy(Object::SetLayout(SetKind::Waves)),
        Teardown::Unmap(BufferName::Waves),
        Teardown::Destroy(Object::Buffer(BufferName::Waves)),
        Teardown::Destroy(Object::BufferMemory(BufferName::Waves)),
        Teardown::Destroy(Object::Buffer(BufferName::WaveVertices)),
        Teardown::Destroy(Object::BufferMemory(BufferName::WaveVertices)),
        Teardown::Destroy(Object::Buffer(BufferName::WaveIndices)),
        Teardown::Destroy(Object::BufferMemory(BufferName::WaveIndices)),
        Teardown::Destroy(Object::Device),
        Teardown::Destroy(Object::Surface),
        Teardown::Destroy(Object::Instance),
    ]
}

/// The views of the swapchain's images.
pub open spec fn view_teardown(views: nat) -> Seq<Teardown> {
    Seq::new(views, |i: int| Teardown::Destroy(Object::SwapView(i as usize)))
}

/// The steps that unmap and destroy.
pub open spec fn destruction(has_async: bool, views: nat) -> Seq<Teardown> {
    text_teardown() + frame_teardown(0) + frame_teardown(1) + (if has_async {
        async_teardown()
    } else {
        Seq::empty()
    }) + base_teardown() + view_teardown(views) + rest_teardown()
}

/// All steps of taking things down.
pub open spec fn teardown(has_async: bool, views: nat) -> Seq<Teardown> {
    seq![Teardown::WaitIdle] + destruction(has_async, views)
}

fn push_writes(steps: &mut Vec<Setup>, writes: &Vec<DescriptorWrite>)
    ensures
        final(steps)@ == old(steps)@ + write_steps(writes@),
{
    for i in 0..writes.len()
        invariant
            steps@ == old(steps)@ + write_steps(writes@).take(i as int),
    {
        steps.push(Setup::Write(writes[i]));
        assert(steps@ =~= old(steps)@ + write_steps(writes@).take(i + 1));
    }
    assert(write_steps(writes@).take(writes.len() as int) =~= write_steps(writes@));
}

fn base_steps() -> (out: Vec<Setup>)
    ensures
        out@ == base_setup(),
{
    let out = vec![
        Setup::Create(Object::Sampler(SamplerName::Volume)),
        Setup::Create(Object::DescriptorPool),
        Setup::Create(Object::SetLayout(SetKind::Wavefunction)),
        Setup::Create(Object::PipelineLayout(SetKind::Wavefunction)),
        Setup::Create(Object::Pipeline(Pass::Wavefunction)),
        Setup::Create(Object::SetLayout(SetKind::Mipmap)),
        Setup::Create(Object::PipelineLayout(SetKind::Mipmap)),
        Setup::Create(Object::Pipeline(Pass::Mipmap)),
        Setup::Create(Object::SetLayout(SetKind::Volume)),
        Setup::Create(Object::PipelineLayout(SetKind::Volume)),
        Setup::Create(Object::Pipeline(Pass::Raymarch)),
        Setup::Create(Object::Pipeline(Pass::Heatmap)),
    ];
    assert(out@ =~= base_setup());
    out
}

fn frame_steps(slot: usize) -> (out: Vec<Setup>)
    ensures
        out@ == frame_setup(slot),
{
    let mut out = vec![
        Setup::Create(Object::CommandPool(slot)),
        Setup::Create(Object::ImageAvailable(slot)),
        Setup::Create(Object::RenderFinished(slot)),
        Setup::Create(Object::InFlightFence(slot)),
        Setup::HostBuffer(BufferName::Camera(slot)),
        Setup::HostBuffer(BufferName::Components(slot)),
        Setup::StorageImage(ImageName::Volume(slot)),
        Setup::StorageImage(ImageName::PsiMax(slot)),
        Setup::Allocate(SetName { kind: SetKind::Wavefunction, slot }),
        Setup::Allocate(SetName { kind: SetKind::Mipmap, slot }),
        Setup::Allocate(SetName { kind: SetKind::Volume, slot }),
    ];
    push_writes(&mut out, &frame_writes(slot));
    assert(out@ =~= frame_setup(slot));
    out
}

fn particle_steps() -> (out: Vec<Setup>)
    ensures
        out@ == particle_setup(),
{
    let mut out = vec![
        Setup::DeviceBuffer(BufferName::Particles),
        Setup::Create(Object::SetLayout(SetKind::Particles)),
        Setup::Create(Object::PipelineLayout(SetKind::Particles)),
        Setup::Create(Object::Pipeline(Pass::Particles)),
        Setup::Allocate(SetName { kind: SetKind::Particles, slot: 0 }),
        Setup::Create(Object::SetLayout(SetKind::Billboards)),
        Setup::Create(Object::PipelineLayout(SetKind::Billboards)),
        Setup::Create(Object::Pipeline(Pass::Billboards)),
        Setup::Allocate(SetName { kind: SetKind::Billboards, slot: 0 }),
    ];
    push_writes(&mut out, &particle_writes());
    assert(out@ =~= particle_setup());
    out
}

fn wave_steps() -> (out: Vec<Setup>)
    ensures
        out@ == wave_setup(),
{
    let mut out = vec![
        Setup::UploadedBuffer(BufferName::WaveVertices),
        Setup::UploadedBuffer(BufferName::WaveIndices),
        Setup::HostBuffer(BufferName::Waves),
        Setup::Create(Object::SetLayout(SetKind::Waves)),
        Setup::Create(Object::PipelineLayout(SetKind::Waves)),
        Setup::Create(Object::Pipeline(Pass::Waves)),
        Setup::Allocate(SetName { kind: SetKind::Waves, slot: 0 }),
    ];
    push_writes(&mut out, &wave_writes());
    assert(out@ =~= wave_setup());
    out
}

fn text_steps() -> (out: Vec<Setup>)
    ensures
        out@ == text_setup(),
{
    let mut out = vec![
        Setup::UploadedImage(ImageName::Font),
        Setup::Create(Object::Sampler(SamplerName::Font)),
        Setup::HostBuffer(BufferName::Text),
        Setup::Create(Object::SetLayout(SetKind::Text)),
        Setup::Create(Object::PipelineLayout(SetKind::Text)),
        Setup::Create(Object::Pipeline(Pass::Text)),
        Setup::Allocate(SetName { kind: SetKind::Text, slot: 0 }),
    ];
    push_writes(&mut out, &text_writes());
    assert(out@ =~= text_setup());
    out
}

/// The first steps of bringing things up, up to the swapchain.
pub fn device_steps(has_async: bool) -> (out: Vec<Setup>)
    ensures
        out@ == device_setup(has_async),
{
    let mut out = vec![
        Setup::Create(Object::Instance),
        Setup::Create(Object::Surface),
        Setup::Create(Object::Device),
    ];
    if has_async {
        out.push(Setup::Create(Object::Timeline));
        out.push(Setup::Create(Object::AsyncPool(0)));
        out.push(Setup::Create(Object::AsyncPool(1)));
    }
    out.push(Setup::Create(Object::Swapchain));
    assert(out@ =~= device_setup(has_async));
    out
}

/// The steps of bringing things up that follow on the swapchain.
pub fn scene_steps(views: usize) -> (out: Vec<Setup>)
    ensures
        out@ == scene_setup(views as nat),
{
    let mut out: Vec<Setup> = Vec::new();
    for i in 0..views
        invariant
            out@ == view_setup(views as nat).take(i as int),
    {
        out.push(Setup::Create(Object::SwapView(i)));
        assert(out@ =~= view_setup(views as nat).take(i + 1));
    }
    assert(out@ =~= view_setup(views as nat));
    out.append(&mut base_steps());
    out.append(&mut frame_steps(0));
    out.append(&mut frame_steps(1));
    out.append(&mut particle_steps());
    out.append(&mut wave_steps());
    out.append(&mut text_steps());
    out
}

fn text_down() -> (out: Vec<Teardown>)
    ensures
        out@ == text_teardown(),
{
    let out = vec![
        Teardown::Destroy(Object::Pipeline(Pass::Text)),
        Teardown::Destroy(Object::PipelineLayout(SetKind::Text)),
        Teardown::Destroy(Object::SetLayout(SetKind::Text)),
        Teardown::Unmap(BufferName::Text),
        Teardown::Destroy(Object::Buffer(BufferName::Text)),
        Teardown::Destroy(Object::BufferMemory(BufferName::Text)),
        Teardown::Destroy(Object::Sampler(SamplerName::Font)),
        Teardown::Destroy(Object::ImageView(ImageName::Font)),
        Teardown::Destroy(Object::Image(ImageName::Font)),
        Teardown::Destroy(Object::ImageMemory(ImageName::Font)),
    ];
    assert(out@ =~= text_teardown());
    out
}

fn frame_down(slot: usize) -> (out: Vec<Teardown>)
    ensures
        out@ == frame_teardown(slot),
{
    let out = vec![
        Teardown::Unmap(BufferName::Camera(slot)),
        Teardown::Unmap(BufferName::Components(slot)),
        Teardown::Destroy(Object::Buffer(BufferName::Camera(slot))),
        Teardown::Destroy(Object::BufferMemory(BufferName::Camera(slot))),
        Teardown::Destroy(Object::Buffer(BufferName::Components(slot))),
        Teardown::Destroy(Object::BufferMemory(BufferName::Components(slot))),
        Teardown::Destroy(Object::ImageView(ImageName::Volume(slot))),
        Teardown::Destroy(Object::Image(ImageName::Volume(slot))),
        Teardown::Destroy(Object::ImageMemory(ImageName::Volume(slot))),
        Teardown::Destroy(Object::ImageView(ImageName::PsiMax(slot))),
        Teardown::Destroy(Object::Image(ImageName::PsiMax(slot))),
        Teardown::Destroy(Object::ImageMemory(ImageName::PsiMax(slot))),
        Teardown::Destroy(Object::InFlightFence(slot)),
        Teardown::Destroy(Object::ImageAvailable(slot)),
        Teardown::Destroy(Object::RenderFinished(slot)),
        Teardown::Destroy(Object::CommandPool(slot)),
    ];
    assert(out@ =~= frame_teardown(slot));
    out
}

fn async_down() -> (out: Vec<Teardown>)
    ensures
        out@ == async_teardown(),
{
    let out = vec![
        Teardown::Destroy(Object::AsyncPool(0)),
        Teardown::Destroy(Object::AsyncPool(1)),
        Teardown::Destroy(Object::Timeline),
    ];
    assert(out@ =~= async_teardown());
    out
}

fn base_down() -> (out: Vec<Teardown>)
    ensures
        out@ == base_teardown(),
{
    let out = vec![
        Teardown::Destroy(Object::DescriptorPool),
        Teardown::Destroy(Object::Pipeline(Pass::Heatmap)),
        Teardown::Destroy(Object::Pipeline(Pass::Raymarch)),
        Teardown::Destroy(Object::PipelineLayout(SetKind::Volume)),
        Teardown::Destroy(Object::SetLayout(SetKind::Volume)),
        Teardown::Destroy(Object::Pipeline(Pass::Mipmap)),
        Teardown::Destroy(Object::PipelineLayout(SetKind::Mipmap)),
        Teardown::Destroy(Object::SetLayout(SetKind::Mipmap)),
        Teardown::Destroy(Object::Pipeline(Pass::Wavefunction)),
        Teardown::Destroy(Object::PipelineLayout(SetKind::Wavefunction)),
        Teardown::Destroy(Object::SetLayout(SetKind::Wavefunction)),
        Teardown::Destroy(Object::Sampler(SamplerName::Volume)),
    ];
    assert(out@ =~= base_teardown());
    out
}

fn rest_down() -> (out: Vec<Teardown>)
    ensures
        out@ == rest_teardown(),
{
    let out = vec![
        Teardown::Destroy(Object::Swapchain),
        Teardown::Destroy(Object::Pipeline(Pass::Particles)),
        Teardown::Destroy(Object::PipelineLayout(SetKind::Particles)),
        Teardown::Destroy(Object::SetLayout(SetKind::Particles)),
        Teardown::Destroy(Object::Pipeline(Pass::Billboards)),
        Teardown::Destroy(Object::PipelineLayout(SetKind::Billboards)),
        Teardown::Destroy(Object::SetLayout(SetKind::Billboards)),
        Teardown::Destroy(Object::Buffer(BufferName::Particles)),
        Teardown::Destroy(Object::BufferMemory(BufferName::Particles)),
        Teardown::Destroy(Object::Pipeline(Pass::Waves)),
        Teardown::Destroy(Object::PipelineLayout(SetKind::Waves)),
        Teardown::Destroy(Object::SetLayout(SetKind::Waves)),
        Teardown::Unmap(BufferName::Waves),
        Teardown::Destroy(Object::Buffer(BufferName::Waves)),
        Teardown::Destroy(Object::BufferMemory(BufferName::Waves)),
        Teardown::Destroy(Object::Buffer(BufferName::WaveVertices)),
        Teardown::Destroy(Object::BufferMemory(BufferName::WaveVertices)),
        Teardown::Destroy(Object::Buffer(BufferName::WaveIndices)),
        Teardown::Destroy(Object::BufferMemory(BufferName::WaveIndices)),
        Teardown::Destroy(Object::Device),
        Teardown::Destroy(Object::Surface),
        Teardown::Destroy(Object::Instance),
    ];
    assert(out@ =~= rest_teardown());
    out
}

/// The steps of taking things down.
pub fn teardown_steps(has_async: bool, views: usize) -> (out: Vec<Teardown>)
    ensures
        out@ == teardown(has_async, views as nat),
{
    let mut out: Vec<Teardown> = vec![Teardown::WaitIdle];
    out.append(&mut text_down());
    out.append(&mut frame_down(0));
    out.append(&mut frame_down(1));
    if has_async {
        out.append(&mut async_down());
    }
    out.append(&mut base_down());
    let ghost before = out@;
    assert(before =~= seq![Teardown::WaitIdle] + (text_teardown() + frame_teardown(0)
        + frame_teardown(1) + (if has_async {
        async_teardown()
    } else {
        Seq::empty()
    }) + base_teardown()));
    for i in 0..views
        invariant
            out@ == before + view_teardown(views as nat).take(i as int),
    {
        out.push(Teardown::Destroy(Object::SwapView(i)));
        assert(out@ =~= before + view_teardown(views as nat).take(i + 1));
    }
    assert(view_teardown(views as nat).take(views as int) =~= view_teardown(views as nat));
    out.append(&mut rest_down());
    assert(out@ =~= teardown(has_async, views as nat));
    out
}

/// Where the destruction has an object.
spec fn gone_at(o: Object, has_async: bool, views: nat) -> int {
    let extra: int = if has_async {
        3
    } else {
        0
    };
    match o {
        Object::Pipeline(x) => match x {
            Pass::Text => 0,
            Pass::Heatmap => 43 + extra,
            Pass::Raymarch => 44 + extra,
            Pass::Mipmap => 47 + extra,
            Pass::Wavefunction => 50 + extra,
            Pass::Particles => 55 + extra + views,
            Pass::Billboards => 58 + extra + views,
            Pass::Waves => 63 + extra + views,
        },
        Object::PipelineLayout(x) => match x {
            SetKind::Text => 1,
            SetKind::Volume => 45 + extra,
            SetKind::Mipmap => 48 + extra,
            SetKind::Wavefunction => 51 + extra,
            SetKind::Particles => 56 + extra + views,
            SetKind::Billboards => 59 + extra + views,
            SetKind::Waves => 64 + extra + views,
        },
        Object::SetLayout(x) => match x {
            SetKind::Text => 2,
            SetKind::Volume => 46 + extra,
            SetKind::Mipmap => 49 + extra,
            SetKind::Wavefunction => 52 + extra,
            SetKind::Particles => 57 + extra + views,
            SetKind::Billboards => 60 + extra + views,
            SetKind::Waves => 65 + extra + views,
        },
        Object::Buffer(x) => match x {
            BufferName::Text => 4,
            BufferName::Camera(slot) => 12 + 16 * slot,
            BufferName::Components(slot) => 14 + 16 * slot,
            BufferName::Particles => 61 + extra + views,
            BufferName::Waves => 67 + extra + views,
            BufferName::WaveVertices => 69 + extra + views,
            BufferName::WaveIndices => 71 + extra + views,
        },
        Object::BufferMemory(x) => match x {
            BufferName::Text => 5,
            BufferName::Camera(slot) => 13 + 16 * slot,
            BufferName::Components(slot) => 15 + 16 * slot,
            BufferName::Particles => 62 + extra + views,
            BufferName::Waves => 68 + extra + views,
            BufferName::WaveVertices => 70 + extra + views,
            BufferName::WaveIndices => 72 + extra + views,
        },
        Object::Sampler(x) => match x {
            SamplerName::Font => 6,
            SamplerName::Volume => 53 + extra,
        },
        Object::ImageView(x) => match x {
            ImageName::Font => 7,
            ImageName::Volume(slot) => 16 + 16 * slot,
            ImageName::PsiMax(slot) => 19 + 16 * slot,
        },
        Object::Image(x) => match x {
            ImageName::Font => 8,
            ImageName::Volume(slot) => 17 + 16 * slot,
            ImageName::PsiMax(slot) => 20 + 16 * slot,
        },
        Object::ImageMemory(x) => match x {
            ImageName::Font => 9,
            ImageName::Volume(slot) => 18 + 16 * slot,
            ImageName::PsiMax(slot) => 21 + 16 * slot,
        },
        Object::InFlightFence(slot) => 22 + 16 * slot,
        Object::ImageAvailable(slot) => 23 + 16 * slot,
        Object::RenderFinished(slot) => 24 + 16 * slot,
        Object::CommandPool(slot) => 25 + 16 * slot,
        Object::AsyncPool(slot) => 42 + slot,
        Object::Timeline => 44,
        Object::DescriptorPool => 42 + extra,
        Object::SwapView(slot) => 54 + extra + slot,
        Object::Swapchain => 54 + extra + views,
        Object::Device => 73 + extra + views,
        Object::Surface => 74 + extra + views,
        Object::Instance => 75 + extra + views,
    }
}

/// Where the destruction unmaps a buffer.
spec fn unmapped_at(b: BufferName, has_async: bool, views: nat) -> int {
    let extra: int = if has_async {
        3
    } else {
        0
    };
    match b {
        BufferName::Text => 3,
        BufferName::Camera(slot) => 10 + 16 * slot,
        BufferName::Components(slot) => 11 + 16 * slot,
        BufferName::Waves => 66 + extra + views,
        _ => -1,
    }
}

/// Where the setup brings up an object.
spec fn made_at(o: Object, has_async: bool, views: nat) -> int {
    let extra: int = if has_async {
        3
    } else {
        0
    };
    match o {
        Object::Instance => 0,
        Object::Surface => 1,
        Object::Device => 2,
        Object::Timeline => 3,
        Object::AsyncPool(slot) => 4 + slot,
        Object::Swapchain => 3 + extra,
        Object::SwapView(slot) => 4 + extra + slot,
        Object::Sampler(x) => match x {
            SamplerName::Volume => 4 + extra + views,
            SamplerName::Font => 75 + extra + views,
        },
        Object::DescriptorPool => 5 + extra + views,
        Object::SetLayout(x) => match x {
            SetKind::Wavefunction => 6 + extra + views,
            SetKind::Mipmap => 9 + extra + views,
            SetKind::Volume => 12 + extra + views,
            SetKind::Particles => 53 + extra + views,
            SetKind::Billboards => 57 + extra + views,
            SetKind::Waves => 69 + extra + views,
            SetKind::Text => 77 + extra + views,
        },
        Object::PipelineLayout(x) => match x {
            SetKind::Wavefunction => 7 + extra + views,
            SetKind::Mipmap => 10 + extra + views,
            SetKind::Volume => 13 + extra + views,
            SetKind::Particles => 54 + extra + views,
            SetKind::Billboards => 58 + extra + views,
            SetKind::Waves => 70 + extra + views,
            SetKind::Text => 78 + extra + views,
        },
        Object::Pipeline(x) => match x {
            Pass::Wavefunction => 8 + extra + views,
            Pass::Mipmap => 11 + extra + views,
            Pass::Raymarch => 14 + extra + views,
            Pass::Heatmap => 15 + extra + views,
            Pass::Particles => 55 + extra + views,
            Pass::Billboards => 59 + extra + views,
            Pass::Waves => 71 + extra + views,
            Pass::Text => 79 + extra + views,
        },
        Object::CommandPool(slot) => 16 + extra + views + 18 * slot,
        Object::ImageAvailable(slot) => 17 + extra + views + 18 * slot,
        Object::RenderFinished(slot) => 18 + extra + views + 18 * slot,
        Object::InFlightFence(slot) => 19 + extra + views + 18 * slot,
        Object::Buffer(x) => match x {
            BufferName::Camera(slot) => 20 + extra + views + 18 * slot,
            BufferName::Components(slot) => 21 + extra + views + 18 * slot,
            BufferName::Particles => 52 + extra + views,
            BufferName::WaveVertices => 66 + extra + views,
            BufferName::WaveIndices => 67 + extra + views,
            BufferName::Waves => 68 + extra + views,
            BufferName::Text => 76 + extra + views,
        },
        Object::BufferMemory(x) => match x {
            BufferName::Camera(slot) => 20 + extra + views + 18 * slot,
            BufferName::Components(slot) => 21 + extra + views + 18 * slot,
            BufferName::Particles => 52 + extra + views,
            BufferName::WaveVertices => 66 + extra + views,
            BufferName::WaveIndices => 67 + extra + views,
            BufferName::Waves => 68 + extra + views,
            BufferName::Text => 76 + extra + views,
        },
        Object::Image(x) => match x {
            ImageName::Volume(slot) => 22 + extra + views + 18 * slot,
            ImageName::PsiMax(slot) => 23 + extra + views + 18 * slot,
            ImageName::Font => 74 + extra + views,
        },
        Object::ImageMemory(x) => match x {
            ImageName::Volume(slot) => 22 + extra + views + 18 * slot,
            ImageName::PsiMax(slot) => 23 + extra + views + 18 * slot,
            ImageName::Font => 74 + extra + views,
        },
        Object::ImageView(x) => match x {
            ImageName::Volume(slot) => 22 + extra + views + 18 * slot,
            ImageName::PsiMax(slot) => 23 + extra + views + 18 * slot,
            ImageName::Font => 74 + extra + views,
        },
    }
}

#[verifier::spinoff_prover]
#[verifier::rlimit(60)]
proof fn lemma_gone_at(has_async: bool, views: nat, i: int)
    requires
        0 <= i < destruction(has_async, views).len(),
        views <= usize::MAX,
    ensures
        match destruction(has_async, views)[i] {
            Teardown::WaitIdle => false,
            Teardown::Destroy(o) => is_object(o, has_async, views) && gone_at(o, has_async, views)
                == i,
            Teardown::Unmap(b) => is_mapped(b) && unmapped_at(b, has_async, views) == i,
        },
{
    let extra: int = if has_async {
        3
    } else {
        0
    };
    let all = destruction(has_async, views);
    if i < 10 {
        assert(all[i] == text_teardown()[i]);
        assert(i == 0 || i == 1 || i == 2 || i == 3 || i == 4 || i == 5 || i == 6 || i == 7
            || i == 8 || i == 9);
    } else if i < 26 {
        let k = i - 10;
        assert(all[i] == frame_teardown(0)[k]);
        assert(k == 0 || k == 1 || k == 2 || k == 3 || k == 4 || k == 5 || k == 6 || k == 7
            || k == 8 || k == 9 || k == 10 || k == 11 || k == 12 || k == 13 || k == 14
            || k == 15);
    } else if i < 42 {
        let k = i - 26;
        assert(all[i] == frame_teardown(1)[k]);
        assert(k == 0 || k == 1 || k == 2 || k == 3 || k == 4 || k == 5 || k == 6 || k == 7
            || k == 8 || k == 9 || k == 10 || k == 11 || k == 12 || k == 13 || k == 14
            || k == 15);
    } else if i < 42 + extra {
        let k = i - 42;
        assert(all[i] == async_teardown()[k]);
        assert(k == 0 || k == 1 || k == 2);
    } else if i < 54 + extra {
        let k = i - 42 - extra;
        assert(all[i] == base_teardown()[k]);
        assert(k == 0 || k == 1 || k == 2 || k == 3 || k == 4 || k == 5 || k == 6 || k == 7
            || k == 8 || k == 9 || k == 10 || k == 11);
    } else if i < 54 + extra + views {
        assert(all[i] == view_teardown(views)[i - 54 - extra]);
    } else {
        let k = i - 54 - extra - views;
        assert(all[i] == rest_teardown()[k]);
        assert(k == 0 || k == 1 || k == 2 || k == 3 || k == 4 || k == 5 || k == 6 || k == 7
            || k == 8 || k == 9 || k == 10 || k == 11 || k == 12 || k == 13 || k == 14 || k == 15
            || k == 16 || k == 17 || k == 18 || k == 19 || k == 20 || k == 21);
    }
}

#[verifier::spinoff_prover]
#[verifier::rlimit(60)]
proof fn lemma_gone(has_async: bool, views: nat, o: Object)
    requires
        is_object(o, has_async, views),
        views <= usize::MAX,
    ensures
        0 <= gone_at(o, has_async, views) < destruction(has_async, views).len(),
        destruction(has_async, views)[gone_at(o, has_async, views)] == Teardown::Destroy(o),
{
    let extra: int = if has_async {
        3
    } else {
        0
    };
    let all = destruction(has_async, views);
    let i = gone_at(o, has_async, views);
    assert(all.len() == 76 + extra + views);
    assert(0 <= i < all.len());
    if i < 10 {
        assert(all[i] == text_teardown()[i]);
    } else if i < 26 {
        assert(all[i] == frame_teardown(0)[i - 10]);
    } else if i < 42 {
        assert(all[i] == frame_teardown(1)[i - 26]);
    } else if i < 42 + extra {
        assert(all[i] == async_teardown()[i - 42]);
    } else if i < 54 + extra {
        assert(all[i] == base_teardown()[i - 42 - extra]);
    } else if i < 54 + extra + views {
        assert(all[i] == view_teardown(views)[i - 54 - extra]);
    } else {
        assert(all[i] == rest_teardown()[i - 54 - extra - views]);
    }
}

#[verifier::spinoff_prover]
#[verifier::rlimit(60)]
proof fn lemma_made_at(has_async: bool, views: nat, i: int, o: Object)
    requires
        0 <= i < setup(has_async, views).len(),
        views <= usize::MAX,
        makes(setup(has_async, views)[i], o),
    ensures
        is_object(o, has_async, views),
        made_at(o, has_async, views) == i,
{
    let extra: int = if has_async {
        3
    } else {
        0
    };
    let all = setup(has_async, views);
    let at = 4 + extra + views;
    if i < 4 + extra {
        assert(all[i] == device_setup(has_async)[i]);
        assert(i == 0 || i == 1 || i == 2 || i == 3 || i == 4 || i == 5 || i == 6);
    } else if i < at {
        assert(all[i] == view_setup(views)[i - 4 - extra]);
    } else if i < at + 12 {
        let k = i - at;
        assert(all[i] == base_setup()[k]);
        assert(k == 0 || k == 1 || k == 2 || k == 3 || k == 4 || k == 5 || k == 6 || k == 7
            || k == 8 || k == 9 || k == 10 || k == 11);
    } else if i < at + 30 {
        let k = i - at - 12;
        assert(all[i] == frame_setup(0)[k]);
        assert(k == 0 || k == 1 || k == 2 || k == 3 || k == 4 || k == 5 || k == 6 || k == 7
            || k == 8 || k == 9 || k == 10 || k == 11 || k == 12 || k == 13 || k == 14 || k == 15
            || k == 16 || k == 17);
    } else if i < at + 48 {
        let k = i - at - 30;
        assert(all[i] == frame_setup(1)[k]);
        assert(k == 0 || k == 1 || k == 2 || k == 3 || k == 4 || k == 5 || k == 6 || k == 7
            || k == 8 || k == 9 || k == 10 || k == 11 || k == 12 || k == 13 || k == 14 || k == 15
            || k == 16 || k == 17);
    } else if i < at + 62 {
        let k = i - at - 48;
        assert(all[i] == particle_setup()[k]);
        assert(k == 0 || k == 1 || k == 2 || k == 3 || k == 4 || k == 5 || k == 6 || k == 7
            || k == 8 || k == 9 || k == 10 || k == 11 || k == 12 || k == 13);
    } else if i < at + 70 {
        let k = i - at - 62;
        assert(all[i] == wave_setup()[k]);
        assert(k == 0 || k == 1 || k == 2 || k == 3 || k == 4 || k == 5 || k == 6 || k == 7);
    } else {
        let k = i - at - 70;
        assert(all[i] == text_setup()[k]);
        assert(k == 0 || k == 1 || k == 2 || k == 3 || k == 4 || k == 5 || k == 6 || k == 7
            || k == 8);
    }
}

#[verifier::spinoff_prover]
#[verifier::rlimit(60)]
proof fn lemma_made(has_async: bool, views: nat, o: Object)
    requires
        is_object(o, has_async, views),
        views <= usize::MAX,
    ensures
        0 <= made_at(o, has_async, views) < setup(has_async, views).len(),
        makes(setup(has_async, views)[made_at(o, has_async, views)], o),
{
    let extra: int = if has_async {
        3
    } else {
        0
    };
    let all = setup(has_async, views);
    let at = 4 + extra + views;
    let i = made_at(o, has_async, views);
    assert(all.len() == at + 79);
    if i < 4 + extra {
        assert(all[i] == device_setup(has_async)[i]);
    } else if i < at {
        assert(all[i] == view_setup(views)[i - 4 - extra]);
    } else if i < at + 12 {
        assert(all[i] == base_setup()[i - at]);
    } else if i < at + 30 {
        assert(all[i] == frame_setup(0)[i - at - 12]);
    } else if i < at + 48 {
        assert(all[i] == frame_setup(1)[i - at - 30]);
    } else if i < at + 62 {
        assert(all[i] == particle_setup()[i - at - 48]);
    } else if i < at + 70 {
        assert(all[i] == wave_setup()[i - at - 62]);
    } else {
        assert(all[i] == text_setup()[i - at - 70]);
    }
}

/// What a step needs is there among the objects, and comes up before.
#[verifier::spinoff_prover]
#[verifier::rlimit(60)]
proof fn lemma_need_is_made_before(has_async: bool, views: nat, i: int, p: Object)
    requires
        0 <= i < setup(has_async, views).len(),
        views <= usize::MAX,
        needs(setup(has_async, views)[i], p),
    ensures
        is_object(p, has_async, views),
        made_at(p, has_async, views) < i,
{
    let extra: int = if has_async {
        3
    } else {
        0
    };
    let all = setup(has_async, views);
    let at = 4 + extra + views;
    if i < 4 + extra {
        assert(all[i] == device_setup(has_async)[i]);
        assert(i == 0 || i == 1 || i == 2 || i == 3 || i == 4 || i == 5 || i == 6);
    } else if i < at {
        assert(all[i] == view_setup(views)[i - 4 - extra]);
    } else if i < at + 12 {
        let k = i - at;
        assert(all[i] == base_setup()[k]);
        assert(k == 0 || k == 1 || k == 2 || k == 3 || k == 4 || k == 5 || k == 6 || k == 7
            || k == 8 || k == 9 || k == 10 || k == 11);
    } else if i < at + 30 {
        let k = i - at - 12;
        assert(all[i] == frame_setup(0)[k]);
        assert(k == 0 || k == 1 || k == 2 || k == 3 || k == 4 || k == 5 || k == 6 || k == 7
            || k == 8 || k == 9 || k == 10 || k == 11 || k == 12 || k == 13 || k == 14 || k == 15
            || k == 16 || k == 17);
    } else if i < at + 48 {
        let k = i - at - 30;
        assert(all[i] == frame_setup(1)[k]);
        assert(k == 0 || k == 1 || k == 2 || k == 3 || k == 4 || k == 5 || k == 6 || k == 7
            || k == 8 || k == 9 || k == 10 || k == 11 || k == 12 || k == 13 || k == 14 || k == 15
            || k == 16 || k == 17);
    } else if i < at + 62 {
        let k = i - at - 48;
        assert(all[i] == particle_setup()[k]);
        assert(k == 0 || k == 1 || k == 2 || k == 3 || k == 4 || k == 5 || k == 6 || k == 7
            || k == 8 || k == 9 || k == 10 || k == 11 || k == 12 || k == 13);
    } else if i < at + 70 {
        let k = i - at - 62;
        assert(all[i] == wave_setup()[k]);
        assert(k == 0 || k == 1 || k == 2 || k == 3 || k == 4 || k == 5 || k == 6 || k == 7);
    } else {
        let k = i - at - 70;
        assert(all[i] == text_setup()[k]);
        assert(k == 0 || k == 1 || k == 2 || k == 3 || k == 4 || k == 5 || k == 6 || k == 7
            || k == 8);
    }
}

/// Nothing is unmapped or destroyed before the device is idle: the teardown waits first,
/// and only then.
pub proof fn law_teardown_waits_first(has_async: bool, views: nat)
    requires
        views <= usize::MAX,
    ensures
        forall|i: int|
            0 <= i < teardown(has_async, views).len() ==> (#[trigger] teardown(has_async, views)[i]
                == Teardown::WaitIdle <==> i == 0),
        teardown(has_async, views).len() > 0,
{
    let all = teardown(has_async, views);
    assert forall|i: int| 0 <= i < all.len() implies (#[trigger] all[i] == Teardown::WaitIdle <==> i
        == 0) by {
        if i > 0 {
            assert(all[i] == destruction(has_async, views)[i - 1]);
            lemma_gone_at(has_async, views, i - 1);
        }
    }
}

/// The teardown destroys exactly the objects that there are, each once.
pub proof fn law_teardown_destroys_each_once(has_async: bool, views: nat)
    requires
        views <= usize::MAX,
    ensures
        teardown(has_async, views).no_duplicates(),
        forall|o: Object| #[trigger]
            teardown(has_async, views).contains(Teardown::Destroy(o)) <==> is_object(
                o,
                has_async,
                views,
            ),
{
    let all = teardown(has_async, views);
    assert forall|i: int, j: int| 0 <= i < all.len() && 0 <= j < all.len() && i != j implies all[i]
        != all[j] by {
        if i > 0 {
            assert(all[i] == destruction(has_async, views)[i - 1]);
            lemma_gone_at(has_async, views, i - 1);
        }
        if j > 0 {
            assert(all[j] == destruction(has_async, views)[j - 1]);
            lemma_gone_at(has_async, views, j - 1);
        }
    }
    assert forall|o: Object| #[trigger] all.contains(Teardown::Destroy(o)) <==> is_object(
        o,
        has_async,
        views,
    ) by {
        if all.contains(Teardown::Destroy(o)) {
            let i = choose|i: int| 0 <= i < all.len() && all[i] == Teardown::Destroy(o);
            assert(all[i] == destruction(has_async, views)[i - 1]);
            lemma_gone_at(has_async, views, i - 1);
        }
        if is_object(o, has_async, views) {
            lemma_gone(has_async, views, o);
            assert(all[gone_at(o, has_async, views) + 1] == Teardown::Destroy(o));
        }
    }
}

/// Nothing is destroyed while something rests on it.
pub proof fn law_teardown_keeps_order(
    has_async: bool,
    views: nat,
    i: int,
    j: int,
    o: Object,
    p: Object,
)
    requires
        views <= usize::MAX,
        0 <= i < teardown(has_async, views).len(),
        0 <= j < teardown(has_async, views).len(),
        teardown(has_async, views)[i] == Teardown::Destroy(o),
        teardown(has_async, views)[j] == Teardown::Destroy(p),
        rests_on(o, p),
    ensures
        i < j,
{
    assert(teardown(has_async, views)[i] == destruction(has_async, views)[i - 1]);
    assert(teardown(has_async, views)[j] == destruction(has_async, views)[j - 1]);
    lemma_gone_at(has_async, views, i - 1);
    lemma_gone_at(has_async, views, j - 1);
}

/// Exactly the mapped buffers are unmapped, before their memory is freed.
pub proof fn law_teardown_unmaps(has_async: bool, views: nat, b: BufferName)
    requires
        views <= usize::MAX,
    ensures
        teardown(has_async, views).contains(Teardown::Unmap(b)) <==> is_mapped(b),
        forall|i: int, j: int|
            0 <= i < teardown(has_async, views).len() && 0 <= j < teardown(has_async, views).len()
                && #[trigger] teardown(has_async, views)[i] == Teardown::Unmap(b)
                && #[trigger] teardown(has_async, views)[j] == Teardown::Destroy(
                Object::BufferMemory(b),
            ) ==> i < j,
{
    let all = teardown(has_async, views);
    let extra: int = if has_async {
        3
    } else {
        0
    };
    if all.contains(Teardown::Unmap(b)) {
        let i = choose|i: int| 0 <= i < all.len() && all[i] == Teardown::Unmap(b);
        assert(all[i] == destruction(has_async, views)[i - 1]);
        lemma_gone_at(has_async, views, i - 1);
    }
    if is_mapped(b) {
        match b {
            BufferName::Camera(slot) => {
                assert(all[11 + 16 * slot] == frame_teardown(slot)[0]);
            },
            BufferName::Components(slot) => {
                assert(all[12 + 16 * slot] == frame_teardown(slot)[1]);
            },
            BufferName::Waves => {
                assert(all[67 + extra + views] == rest_teardown()[12]);
            },
            _ => {
                assert(all[4] == text_teardown()[3]);
            },
        }
    }
    assert forall|i: int, j: int|
        0 <= i < all.len() && 0 <= j < all.len() && #[trigger] all[i] == Teardown::Unmap(b)
            && #[trigger] all[j] == Teardown::Destroy(Object::BufferMemory(b)) implies i < j by {
        assert(all[i] == destruction(has_async, views)[i - 1]);
        assert(all[j] == destruction(has_async, views)[j - 1]);
        lemma_gone_at(has_async, views, i - 1);
        lemma_gone_at(has_async, views, j - 1);
    }
}

/// Whether one of the first `n` steps brings up an object.
pub open spec fn is_made_by(steps: Seq<Setup>, n: int, o: Object) -> bool {
    exists|j: int| 0 <= j < n && makes(#[trigger] steps[j], o)
}

/// The setup brings up exactly the objects that there are, each once.
pub proof fn law_setup_makes_each_once(has_async: bool, views: nat, o: Object)
    requires
        views <= usize::MAX,
    ensures
        is_made_by(setup(has_async, views), setup(has_async, views).len() as int, o) <==> is_object(
            o,
            has_async,
            views,
        ),
        forall|i: int, j: int|
            0 <= i < setup(has_async, views).len() && 0 <= j < setup(has_async, views).len()
                && makes(#[trigger] setup(has_async, views)[i], o) && makes(
                #[trigger] setup(has_async, views)[j],
                o,
            ) ==> i == j,
{
    let all = setup(has_async, views);
    if is_made_by(all, all.len() as int, o) {
        let j = choose|j: int| 0 <= j < all.len() && makes(#[trigger] all[j], o);
        lemma_made_at(has_async, views, j, o);
    }
    if is_object(o, has_async, views) {
        lemma_made(has_async, views, o);
    }
    assert forall|i: int, j: int|
        0 <= i < all.len() && 0 <= j < all.len() && makes(#[trigger] all[i], o) && makes(
            #[trigger] all[j],
            o,
        ) implies i == j by {
        lemma_made_at(has_async, views, i, o);
        lemma_made_at(has_async, views, j, o);
    }
}

/// Nothing is asked for before what it needs is there.
pub proof fn law_setup_keeps_order(has_async: bool, views: nat, i: int, p: Object)
    requires
        views <= usize::MAX,
        0 <= i < setup(has_async, views).len(),
        needs(setup(has_async, views)[i], p),
    ensures
        is_made_by(setup(has_async, views), i, p),
{
    lemma_need_is_made_before(has_async, views, i, p);
    lemma_made(has_async, views, p);
}

/// What comes up goes down, and nothing else.
pub proof fn law_teardown_undoes_setup(has_async: bool, views: nat, o: Object)
    requires
        views <= usize::MAX,
    ensures
        is_made_by(setup(has_async, views), setup(has_async, views).len() as int, o)
            <==> teardown(has_async, views).contains(Teardown::Destroy(o)),
{
    law_setup_makes_each_once(has_async, views, o);
    law_teardown_destroys_each_once(has_async, views);
}

/// Exactly the buffers that stay mapped are set up in memory that the host can write to,
/// and the setup maps each of them once.
pub proof fn law_mapped_buffers_are_host_visible(has_async: bool, views: nat, b: BufferName)
    requires
        views <= usize::MAX,
        is_buffer(b),
    ensures
        is_mapped(b) <==> gpu::has_bits(resources::buffer_spec_of(b).memory, MEMORY_HOST_VISIBLE),
        setup(has_async, views).contains(Setup::HostBuffer(b)) <==> is_mapped(b),
{
    assert((MEMORY_HOST_VISIBLE | MEMORY_HOST_COHERENT) & MEMORY_HOST_VISIBLE
        == MEMORY_HOST_VISIBLE) by (bit_vector);
    assert(MEMORY_DEVICE_LOCAL & MEMORY_HOST_VISIBLE != MEMORY_HOST_VISIBLE) by (bit_vector);
    let all = setup(has_async, views);
    let o = Object::Buffer(b);
    let i = made_at(o, has_async, views);
    lemma_made(has_async, views, o);
    lemma_made_as(has_async, views, b);
    if is_mapped(b) {
        assert(all[i] == Setup::HostBuffer(b));
    }
    if all.contains(Setup::HostBuffer(b)) {
        let j = choose|j: int| 0 <= j < all.len() && all[j] == Setup::HostBuffer(b);
        lemma_made_at(has_async, views, j, o);
    }
}

/// The step that brings up a buffer.
#[verifier::spinoff_prover]
proof fn lemma_made_as(has_async: bool, views: nat, b: BufferName)
    requires
        is_buffer(b),
        views <= usize::MAX,
    ensures
        setup(has_async, views)[made_at(Object::Buffer(b), has_async, views)] == (match b {
            BufferName::Particles => Setup::DeviceBuffer(b),
            BufferName::WaveVertices => Setup::UploadedBuffer(b),
            BufferName::WaveIndices => Setup::UploadedBuffer(b),
            _ => Setup::HostBuffer(b),
        }),
{
    let extra: int = if has_async {
        3
    } else {
        0
    };
    let all = setup(has_async, views);
    let i = made_at(Object::Buffer(b), has_async, views);
    let at = 4 + extra + views;
    match b {
        BufferName::Camera(slot) => {
            assert(all[i] == frame_setup(slot)[4]);
        },
        BufferName::Components(slot) => {
            assert(all[i] == frame_setup(slot)[5]);
        },
        BufferName::Particles => {
            assert(all[i] == particle_setup()[0]);
        },
        BufferName::WaveVertices => {
            assert(all[i] == wave_setup()[0]);
        },
        BufferName::WaveIndices => {
            assert(all[i] == wave_setup()[1]);
        },
        BufferName::Waves => {
            assert(all[i] == wave_setup()[2]);
        },
        BufferName::Text => {
            assert(all[i] == text_setup()[2]);
        },
    }
}

/// Where the setup takes a descriptor set from the pool.
spec fn allocated_at(set: SetName, has_async: bool, views: nat) -> int {
    let extra: int = if has_async {
        3
    } else {
        0
    };
    let at = 4 + extra + views;
    match set.kind {
        SetKind::Wavefunction => at + 20 + 18 * set.slot,
        SetKind::Mipmap => at + 21 + 18 * set.slot,
        SetKind::Volume => at + 22 + 18 * set.slot,
        SetKind::Particles => at + 52,
        SetKind::Billboards => at + 56,
        SetKind::Waves => at + 68,
        SetKind::Text => at + 76,
    }
}

/// Whether there is such a descriptor set.
pub open spec fn is_set(set: SetName) -> bool {
    if resources::is_per_frame(set.kind) {
        set.slot < 2
    } else {
        set.slot == 0
    }
}

#[verifier::spinoff_prover]
#[verifier::rlimit(60)]
proof fn lemma_set_steps(has_async: bool, views: nat, i: int)
    requires
        0 <= i < setup(has_async, views).len(),
        views <= usize::MAX,
    ensures
        match setup(has_async, views)[i] {
            Setup::Allocate(set) => is_set(set) && i == allocated_at(set, has_async, views),
            Setup::Write(w) => is_set(w.set) && allocated_at(w.set, has_async, views) < i,
            _ => true,
        },
{
    let extra: int = if has_async {
        3
    } else {
        0
    };
    let all = setup(has_async, views);
    let at = 4 + extra + views;
    if i < 4 + extra {
        assert(all[i] == device_setup(has_async)[i]);
        assert(i == 0 || i == 1 || i == 2 || i == 3 || i == 4 || i == 5 || i == 6);
    } else if i < at {
        assert(all[i] == view_setup(views)[i - 4 - extra]);
    } else if i < at + 12 {
        let k = i - at;
        assert(all[i] == base_setup()[k]);
        assert(k == 0 || k == 1 || k == 2 || k == 3 || k == 4 || k == 5 || k == 6 || k == 7
            || k == 8 || k == 9 || k == 10 || k == 11);
    } else if i < at + 30 {
        let k = i - at - 12;
        assert(all[i] == frame_setup(0)[k]);
        assert(k == 0 || k == 1 || k == 2 || k == 3 || k == 4 || k == 5 || k == 6 || k == 7
            || k == 8 || k == 9 || k == 10 || k == 11 || k == 12 || k == 13 || k == 14
            || k == 15 || k == 16 || k == 17);
    } else if i < at + 48 {
        let k = i - at - 30;
        assert(all[i] == frame_setup(1)[k]);
        assert(k == 0 || k == 1 || k == 2 || k == 3 || k == 4 || k == 5 || k == 6 || k == 7
            || k == 8 || k == 9 || k == 10 || k == 11 || k == 12 || k == 13 || k == 14
            || k == 15 || k == 16 || k == 17);
    } else if i < at + 62 {
        let k = i - at - 48;
        assert(all[i] == particle_setup()[k]);
        assert(k == 0 || k == 1 || k == 2 || k == 3 || k == 4 || k == 5 || k == 6 || k == 7
            || k == 8 || k == 9 || k == 10 || k == 11 || k == 12 || k == 13);
    } else if i < at + 70 {
        let k = i - at - 62;
        assert(all[i] == wave_setup()[k]);
        assert(k == 0 || k == 1 || k == 2 || k == 3 || k == 4 || k == 5 || k == 6 || k == 7);
    } else {
        let k = i - at - 70;
        assert(all[i] == text_setup()[k]);
        assert(k == 0 || k == 1 || k == 2 || k == 3 || k == 4 || k == 5 || k == 6 || k == 7
            || k == 8);
    }
}

proof fn lemma_set_is_allocated(has_async: bool, views: nat, set: SetName)
    requires
        is_set(set),
        views <= usize::MAX,
    ensures
        0 <= allocated_at(set, has_async, views) < setup(has_async, views).len(),
        setup(has_async, views)[allocated_at(set, has_async, views)] == Setup::Allocate(set),
{
    let all = setup(has_async, views);
    let i = allocated_at(set, has_async, views);
    match set.kind {
        SetKind::Wavefunction => {
            assert(all[i] == frame_setup(set.slot)[8]);
        },
        SetKind::Mipmap => {
            assert(all[i] == frame_setup(set.slot)[9]);
        },
        SetKind::Volume => {
            assert(all[i] == frame_setup(set.slot)[10]);
        },
        SetKind::Particles => {
            assert(all[i] == particle_setup()[4]);
        },
        SetKind::Billboards => {
            assert(all[i] == particle_setup()[8]);
        },
        SetKind::Waves => {
            assert(all[i] == wave_setup()[6]);
        },
        SetKind::Text => {
            assert(all[i] == text_setup()[6]);
        },
    }
}

/// The sets that the setup takes from the pool are those that the pool was made for, each
/// taken once.
pub proof fn law_sets_are_allocated_once(has_async: bool, views: nat, set: SetName)
    requires
        views <= usize::MAX,
    ensures
        setup(has_async, views).contains(Setup::Allocate(set)) <==> resources::all_sets().contains(
            set,
        ),
        forall|i: int, j: int|
            0 <= i < setup(has_async, views).len() && 0 <= j < setup(has_async, views).len()
                && #[trigger] setup(has_async, views)[i] == Setup::Allocate(set)
                && #[trigger] setup(has_async, views)[j] == Setup::Allocate(set) ==> i == j,
{
    let all = setup(has_async, views);
    let sets = resources::all_sets();
    assert(is_set(set) <==> sets.contains(set)) by {
        if is_set(set) {
            assert(set.slot == 0 || set.slot == 1);
            let k: int = match set.kind {
                SetKind::Wavefunction => 3 * set.slot,
                SetKind::Mipmap => 3 * set.slot + 1,
                SetKind::Volume => 3 * set.slot + 2,
                SetKind::Particles => 6,
                SetKind::Billboards => 7,
                SetKind::Waves => 8,
                SetKind::Text => 9,
            };
            assert(sets[k] == set);
        }
        if sets.contains(set) {
            let k = choose|k: int| 0 <= k < sets.len() && sets[k] == set;
            assert(k == 0 || k == 1 || k == 2 || k == 3 || k == 4 || k == 5 || k == 6 || k == 7 || k
                == 8 || k == 9);
        }
    }
    if is_set(set) {
        lemma_set_is_allocated(has_async, views, set);
    }
    if all.contains(Setup::Allocate(set)) {
        let i = choose|i: int| 0 <= i < all.len() && all[i] == Setup::Allocate(set);
        lemma_set_steps(has_async, views, i);
    }
    assert forall|i: int, j: int|
        0 <= i < all.len() && 0 <= j < all.len() && #[trigger] all[i] == Setup::Allocate(set)
            && #[trigger] all[j] == Setup::Allocate(set) implies i == j by {
        lemma_set_steps(has_async, views, i);
        lemma_set_steps(has_async, views, j);
    }
}

/// A descriptor set is filled only after it was taken from the pool.
pub proof fn law_sets_are_allocated_before_filled(
    has_async: bool,
    views: nat,
    i: int,
    w: DescriptorWrite,
)
    requires
        views <= usize::MAX,
        0 <= i < setup(has_async, views).len(),
        setup(has_async, views)[i] == Setup::Write(w),
    ensures
        setup(has_async, views).take(i).contains(Setup::Allocate(w.set)),
{
    lemma_set_steps(has_async, views, i);
    lemma_set_is_allocated(has_async, views, w.set);
    let before = setup(has_async, views).take(i);
    assert(before[allocated_at(w.set, has_async, views)] == Setup::Allocate(w.set));
}

/// Where the setup makes a write of the list of all writes.
spec fn written_at(k: int, has_async: bool, views: nat) -> int {
    let extra: int = if has_async {
        3
    } else {
        0
    };
    let at = 4 + extra + views;
    if k < 7 {
        at + 23 + k
    } else if k < 14 {
        at + 41 + k - 7
    } else if k < 19 {
        at + 57 + k - 14
    } else if k < 20 {
        at + 69
    } else {
        at + 77 + k - 20
    }
}

/// Which write of the list of all writes a step makes.
spec fn write_made(i: int, has_async: bool, views: nat) -> int {
    let extra: int = if has_async {
        3
    } else {
        0
    };
    let k = i - (4 + extra + views);
    if k < 30 {
        k - 23
    } else if k < 48 {
        k - 41 + 7
    } else if k < 62 {
        k - 57 + 14
    } else if k < 70 {
        19
    } else {
        k - 77 + 20
    }
}

/// How a step brings up what it is for: buffers that the program writes in every frame in
/// host memory, the particles in device memory, the shell's shape and the font by filling
/// them once, and the volumes to be filled by shaders.
pub open spec fn comes_up_right(step: Setup) -> bool {
    match step {
        Setup::Create(o) => !(o is Buffer || o is BufferMemory || o is Image || o is ImageMemory
            || o is ImageView),
        Setup::HostBuffer(b) => b is Camera || b is Components || b is Waves || b is Text,
        Setup::DeviceBuffer(b) => b is Particles,
        Setup::UploadedBuffer(b) => b is WaveVertices || b is WaveIndices,
        Setup::StorageImage(i) => i is Volume || i is PsiMax,
        Setup::UploadedImage(i) => i is Font,
        _ => true,
    }
}

#[verifier::spinoff_prover]
#[verifier::rlimit(60)]
proof fn lemma_write_steps(has_async: bool, views: nat, i: int)
    requires
        0 <= i < setup(has_async, views).len(),
        views <= usize::MAX,
    ensures
        comes_up_right(setup(has_async, views)[i]),
        setup(has_async, views)[i] matches Setup::Write(w) ==> {
            let k = write_made(i, has_async, views);
            &&& 0 <= k < resources::all_writes().len()
            &&& i == written_at(k, has_async, views)
            &&& w == resources::all_writes()[k]
        },
{
    let extra: int = if has_async {
        3
    } else {
        0
    };
    let all = setup(has_async, views);
    let at = 4 + extra + views;
    let writes = resources::all_writes();
    if i < 4 + extra {
        assert(all[i] == device_setup(has_async)[i]);
        assert(i == 0 || i == 1 || i == 2 || i == 3 || i == 4 || i == 5 || i == 6);
    } else if i < at {
        assert(all[i] == view_setup(views)[i - 4 - extra]);
    } else if i < at + 12 {
        let k = i - at;
        assert(all[i] == base_setup()[k]);
        assert(k == 0 || k == 1 || k == 2 || k == 3 || k == 4 || k == 5 || k == 6 || k == 7
            || k == 8 || k == 9 || k == 10 || k == 11);
    } else if i < at + 30 {
        let k = i - at - 12;
        assert(all[i] == frame_setup(0)[k]);
        if k >= 11 {
            assert(all[i] == Setup::Write(resources::frame_writes_of(0)[k - 11]));
            assert(writes[k - 11] == resources::frame_writes_of(0)[k - 11]);
        } else {
            assert(k == 0 || k == 1 || k == 2 || k == 3 || k == 4 || k == 5 || k == 6 || k == 7
                || k == 8 || k == 9 || k == 10);
        }
    } else if i < at + 48 {
        let k = i - at - 30;
        assert(all[i] == frame_setup(1)[k]);
        if k >= 11 {
            assert(all[i] == Setup::Write(resources::frame_writes_of(1)[k - 11]));
            assert(writes[k - 11 + 7] == resources::frame_writes_of(1)[k - 11]);
        } else {
            assert(k == 0 || k == 1 || k == 2 || k == 3 || k == 4 || k == 5 || k == 6 || k == 7
                || k == 8 || k == 9 || k == 10);
        }
    } else if i < at + 62 {
        let k = i - at - 48;
        assert(all[i] == particle_setup()[k]);
        if k >= 9 {
            assert(all[i] == Setup::Write(resources::particle_writes_of()[k - 9]));
            assert(writes[k - 9 + 14] == resources::particle_writes_of()[k - 9]);
        } else {
            assert(k == 0 || k == 1 || k == 2 || k == 3 || k == 4 || k == 5 || k == 6 || k == 7
                || k == 8);
        }
    } else if i < at + 70 {
        let k = i - at - 62;
        assert(all[i] == wave_setup()[k]);
        if k >= 7 {
            assert(all[i] == Setup::Write(resources::wave_writes_of()[k - 7]));
            assert(writes[19] == resources::wave_writes_of()[0]);
        } else {
            assert(k == 0 || k == 1 || k == 2 || k == 3 || k == 4 || k == 5 || k == 6);
        }
    } else {
        let k = i - at - 70;
        assert(all[i] == text_setup()[k]);
        if k >= 7 {
            assert(all[i] == Setup::Write(resources::text_writes_of()[k - 7]));
            assert(writes[k - 7 + 20] == resources::text_writes_of()[k - 7]);
        } else {
            assert(k == 0 || k == 1 || k == 2 || k == 3 || k == 4 || k == 5 || k == 6);
        }
    }
}

#[verifier::spinoff_prover]
proof fn lemma_write_is_made(has_async: bool, views: nat, k: int)
    requires
        0 <= k < resources::all_writes().len(),
        views <= usize::MAX,
    ensures
        ({
            let i = written_at(k, has_async, views);
            &&& 0 <= i < setup(has_async, views).len()
            &&& setup(has_async, views)[i] == Setup::Write(resources::all_writes()[k])
        }),
{
    let all = setup(has_async, views);
    let writes = resources::all_writes();
    let i = written_at(k, has_async, views);
    if k < 7 {
        assert(all[i] == frame_setup(0)[11 + k]);
        assert(writes[k] == resources::frame_writes_of(0)[k]);
    } else if k < 14 {
        assert(all[i] == frame_setup(1)[11 + k - 7]);
        assert(writes[k] == resources::frame_writes_of(1)[k - 7]);
    } else if k < 19 {
        assert(all[i] == particle_setup()[9 + k - 14]);
        assert(writes[k] == resources::particle_writes_of()[k - 14]);
    } else if k < 20 {
        assert(all[i] == wave_setup()[7]);
        assert(writes[k] == resources::wave_writes_of()[0]);
    } else {
        assert(all[i] == text_setup()[7 + k - 20]);
        assert(writes[k] == resources::text_writes_of()[k - 20]);
    }
}

/// The setup fills the descriptor sets with all that they are to point to, each place once,
/// and with nothing else.
pub proof fn law_sets_are_filled_once(has_async: bool, views: nat, w: DescriptorWrite)
    requires
        views <= usize::MAX,
    ensures
        setup(has_async, views).contains(Setup::Write(w)) <==> resources::all_writes().contains(w),
        forall|i: int, j: int|
            0 <= i < j < setup(has_async, views).len() && #[trigger] setup(has_async, views)[i]
                is Write && #[trigger] setup(has_async, views)[j] is Write ==> setup(
                has_async,
                views,
            )[i] != setup(has_async, views)[j],
{
    let all = setup(has_async, views);
    let writes = resources::all_writes();
    if all.contains(Setup::Write(w)) {
        let i = choose|i: int| 0 <= i < all.len() && all[i] == Setup::Write(w);
        lemma_write_steps(has_async, views, i);
        assert(writes[write_made(i, has_async, views)] == w);
    }
    if writes.contains(w) {
        let k = choose|k: int| 0 <= k < writes.len() && writes[k] == w;
        lemma_write_is_made(has_async, views, k);
        assert(all[written_at(k, has_async, views)] == Setup::Write(w));
    }
    resources::law_writes_fit();
    assert forall|i: int, j: int|
        0 <= i < j < all.len() && #[trigger] all[i] is Write && #[trigger] all[j]
            is Write implies all[i] != all[j] by {
        lemma_write_steps(has_async, views, i);
        lemma_write_steps(has_async, views, j);
        let p = write_made(i, has_async, views);
        let q = write_made(j, has_async, views);
        if p < q {
            assert(writes[p].set != writes[q].set || writes[p].binding != writes[q].binding);
        }
        if q < p {
            assert(writes[q].set != writes[p].set || writes[q].binding != writes[p].binding);
        }
    }
}

/// Every buffer and every image comes up in the way that it is filled.
pub proof fn law_things_come_up_as_they_are_filled(has_async: bool, views: nat, i: int)
    requires
        views <= usize::MAX,
        0 <= i < setup(has_async, views).len(),
    ensures
        comes_up_right(setup(has_async, views)[i]),
{
    lemma_write_steps(has_async, views, i);
}

} // verus!
