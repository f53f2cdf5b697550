use quantum_atom_viz::lifetime::{
    device_steps, scene_steps, teardown_steps, Object, Setup, Teardown,
};
use quantum_atom_viz::pipeline::{
    create_graphics_pipeline, create_particle_pipeline, create_text_pipeline, create_wave_pipeline,
    pipeline_spec, shader_files, Blend, DynamicStates, PipelineSpec, VertexInput,
    WAVE_VERTEX_STRIDE,
};
use quantum_atom_viz::resources::{
    buffer_spec, frame_writes, image_spec, particle_writes, pass_bind_point, pass_set, pool_sizes,
    push_range, sampler_spec, set_bindings, text_writes, wave_writes, BufferName, DescriptorWrite,
    ImageName, Pass, SamplerName, SetKind, SetName, Source, MAX_SETS,
};
use quantum_atom_viz::upload::{
    create_device_buffer_with_data, create_device_image_2d_with_data, UploadStep,
};
use std::collections::HashSet;

const PASSES: [Pass; 8] = [
    Pass::Wavefunction,
    Pass::Mipmap,
    Pass::Particles,
    Pass::Raymarch,
    Pass::Heatmap,
    Pass::Billboards,
    Pass::Waves,
    Pass::Text,
];

const KINDS: [SetKind; 7] = [
    SetKind::Wavefunction,
    SetKind::Mipmap,
    SetKind::Volume,
    SetKind::Particles,
    SetKind::Billboards,
    SetKind::Waves,
    SetKind::Text,
];

fn all_writes() -> Vec<DescriptorWrite> {
    let mut all = frame_writes(0);
    all.extend(frame_writes(1));
    all.extend(particle_writes());
    all.extend(wave_writes());
    all.extend(text_writes());
    all
}

fn all_setup(has_async: bool, views: usize) -> Vec<Setup> {
    let mut all = device_steps(has_async);
    all.extend(scene_steps(views));
    all
}

fn made(step: &Setup) -> Vec<Object> {
    match *step {
        Setup::Create(o) => vec![o],
        Setup::HostBuffer(b) | Setup::DeviceBuffer(b) | Setup::UploadedBuffer(b) => {
            vec![Object::Buffer(b), Object::BufferMemory(b)]
        }
        Setup::StorageImage(i) | Setup::UploadedImage(i) => {
            vec![Object::Image(i), Object::ImageMemory(i), Object::ImageView(i)]
        }
        Setup::Allocate(_) | Setup::Write(_) => vec![],
    }
}

#[test]
fn passes_and_their_sets() {
    assert_eq!(pass_set(Pass::Raymarch), SetKind::Volume);
    assert_eq!(pass_set(Pass::Heatmap), SetKind::Volume);
    assert_eq!(pass_set(Pass::Billboards), SetKind::Billboards);
    let computing: Vec<Pass> = PASSES.into_iter().filter(|p| pass_bind_point(*p) == 1).collect();
    assert_eq!(computing, vec![Pass::Wavefunction, Pass::Mipmap, Pass::Particles]);
    for p in PASSES {
        let computes = pass_bind_point(p) == 1;
        assert_eq!(pipeline_spec(p).is_none(), computes);
        assert_eq!(shader_files(p).len(), if computes { 1 } else { 2 });
    }
}

#[test]
fn places_of_the_sets() {
    let counts: Vec<usize> = KINDS.iter().map(|k| set_bindings(*k).len()).collect();
    assert_eq!(counts, vec![2, 2, 3, 2, 3, 1, 2]);
    let b = set_bindings(SetKind::Billboards)[1];
    assert_eq!((b.binding, b.kind, b.count, b.stages), (1, 6, 1, 0x11));
    for k in KINDS {
        for (i, b) in set_bindings(k).iter().enumerate() {
            assert_eq!((b.binding, b.count), (i as u32, 1));
        }
    }
}

#[test]
fn push_ranges() {
    let sizes: Vec<Option<u32>> = KINDS.iter().map(|k| push_range(*k).map(|r| r.size)).collect();
    assert_eq!(sizes, vec![None, Some(16), None, Some(32), Some(144), Some(128), Some(16)]);
    assert_eq!(push_range(SetKind::Mipmap).unwrap().stages, 0x20);
    assert_eq!(push_range(SetKind::Waves).unwrap().stages, 0x1);
}

#[test]
fn every_place_is_written_once() {
    let all = all_writes();
    assert_eq!(all.len(), 22);
    let mut seen = HashSet::new();
    for w in &all {
        assert!(seen.insert((w.set, w.binding)));
        assert_eq!(set_bindings(w.set.kind)[w.binding as usize].kind, w.kind);
    }
    for kind in KINDS {
        let slots = match kind {
            SetKind::Wavefunction | SetKind::Mipmap | SetKind::Volume => 2,
            _ => 1,
        };
        for slot in 0..slots {
            for b in set_bindings(kind) {
                assert!(seen.contains(&(SetName { kind, slot }, b.binding)));
            }
        }
    }
}

#[test]
fn particles_read_the_first_frame() {
    for w in particle_writes() {
        match w.source {
            Source::Image { image, layout, .. } => {
                assert_eq!((image, layout), (ImageName::Volume(0), 5))
            }
            Source::Buffer { buffer, range } => {
                assert!((buffer, range) == (BufferName::Particles, u64::MAX)
                    || (buffer, range) == (BufferName::Camera(0), 208))
            }
        }
    }
}

#[test]
fn the_pool_is_large_enough() {
    let mut sets = HashSet::new();
    for w in all_writes() {
        sets.insert(w.set);
    }
    assert!(sets.len() as u32 <= MAX_SETS);
    let pool: Vec<(i32, u32)> = pool_sizes().iter().map(|p| (p.kind, p.count)).collect();
    assert_eq!(pool, vec![(3, 6), (1, 12), (6, 6), (7, 6)]);
    for (kind, count) in pool {
        assert!(all_writes().iter().filter(|w| w.kind == kind).count() as u32 <= count);
    }
}

#[test]
fn sizes_of_the_buffers() {
    let size = |b| buffer_spec(b).size;
    assert_eq!(size(BufferName::Camera(1)), 208);
    assert_eq!(size(BufferName::Components(0)), 272);
    assert_eq!(size(BufferName::Particles), 524_288);
    assert_eq!(size(BufferName::WaveVertices), 1944);
    assert_eq!(size(BufferName::WaveIndices), 3840);
    assert_eq!(size(BufferName::Waves), 2048);
    assert_eq!(size(BufferName::Text), 49_152);
    assert_eq!(buffer_spec(BufferName::WaveVertices).usage, 0x82);
    assert_eq!(buffer_spec(BufferName::WaveIndices).usage, 0x42);
    assert_eq!(buffer_spec(BufferName::Waves).memory, 6);
    assert_eq!(buffer_spec(BufferName::Particles).memory, 1);
    assert_eq!(size(BufferName::WaveVertices), 162 * WAVE_VERTEX_STRIDE as u64);
}

#[test]
fn shapes_of_the_images() {
    let v = image_spec(ImageName::Volume(0));
    assert_eq!((v.dimensions, v.width, v.height, v.depth, v.format), (2, 128, 128, 128, 103));
    assert_eq!((v.usage, v.memory), (0xC, 1));
    let m = image_spec(ImageName::PsiMax(1));
    assert_eq!((m.width, m.height, m.depth, m.format), (16, 16, 16, 100));
    let f = image_spec(ImageName::Font);
    assert_eq!((f.dimensions, f.width, f.height, f.depth, f.format), (1, 128, 128, 1, 9));
    assert_eq!(f.usage, 0x6);
}

#[test]
fn samplers() {
    let v = sampler_spec(SamplerName::Volume);
    assert_eq!((v.filter, v.mipmap_mode, v.address_mode, v.border_color), (1, 1, 2, 2));
    let f = sampler_spec(SamplerName::Font);
    assert_eq!((f.filter, f.mipmap_mode, f.unnormalized_coordinates), (0, 0, false));
}

fn sum(src_color: i32, dst_color: i32, src_alpha: i32, dst_alpha: i32) -> Blend {
    Blend { src_color, dst_color, color_op: 0, src_alpha, dst_alpha, alpha_op: 0 }
}

#[test]
fn pipelines() {
    let plain = PipelineSpec {
        vertex_input: None,
        topology: 3,
        viewport_count: 1,
        scissor_count: 1,
        polygon_mode: 0,
        cull_mode: 0,
        front_face: 0,
        line_width: 1.0f32.to_bits(),
        samples: 1,
        write_mask: 0xF,
        blend: None,
        dynamic_states: DynamicStates { first: 0, second: 1 },
    };
    let input =
        VertexInput { binding: 0, stride: 12, input_rate: 0, location: 0, format: 106, offset: 0 };
    assert_eq!(create_graphics_pipeline(), plain);
    assert_eq!(
        create_particle_pipeline(),
        PipelineSpec { blend: Some(sum(1, 1, 1, 1)), ..plain }
    );
    assert_eq!(
        create_wave_pipeline(),
        PipelineSpec {
            vertex_input: Some(input),
            polygon_mode: 1,
            blend: Some(sum(6, 1, 1, 1)),
            ..plain
        }
    );
    assert_eq!(create_text_pipeline(), PipelineSpec { blend: Some(sum(6, 7, 1, 7)), ..plain });
    assert_eq!(pipeline_spec(Pass::Raymarch), Some(plain));
    assert_eq!(pipeline_spec(Pass::Heatmap), Some(plain));
    assert_eq!(pipeline_spec(Pass::Billboards), Some(create_particle_pipeline()));
    assert_eq!(pipeline_spec(Pass::Waves), Some(create_wave_pipeline()));
    assert_eq!(pipeline_spec(Pass::Text), Some(create_text_pipeline()));
    assert_eq!(shader_files(Pass::Billboards), vec!["particles.vert.spv", "particles.frag.spv"]);
    assert_eq!(shader_files(Pass::Wavefunction), vec!["wavefunction.comp.spv"]);
}

#[test]
fn setup_in_order() {
    let plain = device_steps(false);
    assert_eq!(
        plain,
        vec![
            Setup::Create(Object::Instance),
            Setup::Create(Object::Surface),
            Setup::Create(Object::Device),
            Setup::Create(Object::Swapchain),
        ]
    );
    assert_eq!(device_steps(true).len(), 7);
    assert_eq!(device_steps(true)[3], Setup::Create(Object::Timeline));
    let scene = scene_steps(2);
    assert_eq!(scene[0], Setup::Create(Object::SwapView(0)));
    assert_eq!(scene[1], Setup::Create(Object::SwapView(1)));
    assert_eq!(scene[2], Setup::Create(Object::Sampler(SamplerName::Volume)));
    assert_eq!(scene.len(), 2 + 12 + 18 + 18 + 14 + 8 + 9);
}

#[test]
fn teardown_undoes_setup() {
    for has_async in [false, true] {
        for views in [0, 1, 3] {
            let mut live = HashSet::new();
            for s in all_setup(has_async, views) {
                for o in made(&s) {
                    assert!(live.insert(o));
                }
            }
            let mut mapped: HashSet<BufferName> = all_setup(has_async, views)
                .iter()
                .filter_map(|s| match s {
                    Setup::HostBuffer(b) => Some(*b),
                    _ => None,
                })
                .collect();
            let mut idle = false;
            for t in teardown_steps(has_async, views) {
                assert_eq!(idle, t != Teardown::WaitIdle);
                match t {
                    Teardown::WaitIdle => idle = true,
                    Teardown::Unmap(b) => {
                        assert!(mapped.remove(&b));
                        assert!(live.contains(&Object::BufferMemory(b)));
                    }
                    Teardown::Destroy(o) => assert!(live.remove(&o), "{:?}", o),
                }
            }
            assert!(live.is_empty());
            assert!(mapped.is_empty());
        }
    }
}

#[test]
fn teardown_ends_with_the_instance() {
    let all = teardown_steps(true, 3);
    assert_eq!(all.len(), 77 + 3 + 3);
    assert_eq!(all[0], Teardown::WaitIdle);
    assert_eq!(all[1], Teardown::Destroy(Object::Pipeline(Pass::Text)));
    assert_eq!(all[4], Teardown::Unmap(BufferName::Text));
    let last: Vec<Teardown> = all[all.len() - 3..].to_vec();
    assert_eq!(
        last,
        vec![
            Teardown::Destroy(Object::Device),
            Teardown::Destroy(Object::Surface),
            Teardown::Destroy(Object::Instance),
        ]
    );
    let at = |o| all.iter().position(|t| *t == Teardown::Destroy(o)).unwrap();
    assert!(at(Object::SwapView(2)) < at(Object::Swapchain));
    assert!(at(Object::ImageView(ImageName::Volume(1))) < at(Object::Image(ImageName::Volume(1))));
    assert!(at(Object::Pipeline(Pass::Heatmap)) < at(Object::PipelineLayout(SetKind::Volume)));
}

#[test]
fn filling_a_buffer() {
    let steps = create_device_buffer_with_data(BufferName::WaveIndices);
    assert_eq!(steps.len(), 14);
    assert_eq!(steps[0], UploadStep::CreateStaging { size: 3840, usage: 1 });
    assert_eq!(steps[1], UploadStep::AllocateStaging { memory: 6 });
    assert_eq!(steps[5], UploadStep::AllocateTarget { memory: 1 });
    assert_eq!(steps[8], UploadStep::CopyToBuffer { size: 3840 });
    assert_eq!(steps[13], UploadStep::FreeStaging);
}

#[test]
fn filling_an_image_leaves_it_readable() {
    let steps = create_device_image_2d_with_data(ImageName::Font, 16384);
    assert_eq!(steps.len(), 17);
    let mut layout = 0;
    for s in &steps {
        if let UploadStep::Barrier(b) = s {
            assert_eq!(b.old_layout, layout);
            layout = b.new_layout;
        }
        if let UploadStep::CopyToImage { width, height, depth } = s {
            assert_eq!((*width, *height, *depth, layout), (128, 128, 1, 7));
        }
    }
    assert_eq!(layout, 5);
    assert_eq!(steps[16], UploadStep::CreateView);
}
