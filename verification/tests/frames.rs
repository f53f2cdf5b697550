use quantum_atom_viz::commands::{
    frame_set, image_barrier, queue_family_acquire, queue_family_release, record_compute_work,
    Command, ImageBarrier, Push, Rendering, Target,
};
use quantum_atom_viz::device::DeviceCaps;
use quantum_atom_viz::frame::{Acquired, FramePlan, Semaphore, Signal, Wait};
use quantum_atom_viz::presets::{pure, presets};
use quantum_atom_viz::renderer::{ColorMode, SliceAxis, ViewMode, VulkanRenderer};
use quantum_atom_viz::resources::{
    frame_writes, particle_writes, text_writes, ImageName, Pass, Source,
};
use quantum_atom_viz::swapchain::Extent;
use quantum_atom_viz::waves::{Triple, WaveStep};
use std::collections::HashMap;

fn viewer(family: Option<u32>) -> VulkanRenderer {
    let caps = DeviceCaps {
        vendor_id: 0x10DE,
        device_id: 1,
        device_name: "Test adapter".to_string(),
        driver_version: 2,
        api_version: 3,
        graphics_family: 0,
        async_compute_family: family,
        subgroup_size: 32,
        device_type: 2,
        device_memory_mb: 4096,
    };
    VulkanRenderer::new(caps, Extent { width: 1280, height: 720 }, 3)
}

fn draw(r: &mut VulkanRenderer) -> FramePlan {
    let steps: Vec<WaveStep> =
        r.waves.iter().map(|w| WaveStep { radius: w.radius, age: w.age, alive: true }).collect();
    r.render_frame(Acquired::Image(1), &steps, "FPS:  60.0").unwrap()
}

fn bound(cs: &[Command]) -> Vec<Pass> {
    cs.iter()
        .filter_map(|c| match c {
            Command::Bind(p) => Some(*p),
            _ => None,
        })
        .collect()
}

fn barriers(cs: &[Command]) -> Vec<ImageBarrier> {
    cs.iter()
        .filter_map(|c| match c {
            Command::Image(b) => Some(*b),
            _ => None,
        })
        .collect()
}

fn volume(slot: usize) -> Target {
    Target::Named(ImageName::Volume(slot))
}

fn psi_max(slot: usize) -> Target {
    Target::Named(ImageName::PsiMax(slot))
}

#[test]
fn first_state() {
    let r = viewer(None);
    assert_eq!(r.view_mode, ViewMode::Volume);
    assert_eq!((r.slice_axis, r.color_mode), (SliceAxis::XZ, ColorMode::Real));
    assert!(r.auto_orbit && r.show_contour && r.show_volume && r.show_waves && !r.show_particles);
    assert!(r.perf_mipskip && r.perf_async && r.needs_particle_init);
    assert_eq!(r.initialized, vec![false, false]);
    assert_eq!((r.frame_index, r.frame_counter, r.fps_accum_frames), (0, 0, 0));
    assert_eq!(f32::from_bits(r.max_density), 0.05);
    assert!(r.components.is_empty() && r.waves.is_empty());
}

#[test]
fn switches_come_round() {
    let mut r = viewer(None);
    let mut axes = Vec::new();
    let mut colors = Vec::new();
    for _ in 0..3 {
        r.cycle_slice_axis();
        r.cycle_color_mode();
        axes.push(r.slice_axis);
        colors.push(r.color_mode);
    }
    assert_eq!(axes, vec![SliceAxis::YZ, SliceAxis::XY, SliceAxis::XZ]);
    assert_eq!(colors, vec![ColorMode::Phase, ColorMode::Density, ColorMode::Real]);
    r.toggle_view_mode();
    assert_eq!(r.view_mode, ViewMode::Heatmap);
    r.toggle_view_mode();
    assert_eq!(r.view_mode, ViewMode::Volume);
    r.toggle_perf_mipskip();
    assert!(!r.perf_mipskip);
}

#[test]
fn switching_the_second_queue() {
    let mut r = viewer(None);
    draw(&mut r);
    assert!(!r.toggle_perf_async());
    assert!(r.perf_async);
    assert_eq!(r.initialized, vec![true, false]);
    let mut r = viewer(Some(1));
    draw(&mut r);
    draw(&mut r);
    assert_eq!(r.initialized, vec![true, true]);
    assert!(r.toggle_perf_async());
    assert!(!r.perf_async);
    assert_eq!(r.initialized, vec![false, false]);
}

#[test]
fn presets_replace_the_state() {
    let mut r = viewer(None);
    r.needs_particle_init = false;
    let all = presets([10, 20, 30, 40]);
    r.apply_preset(&all[8]);
    assert_eq!(r.components, pure(4, 3, 0, 40));
    assert_eq!(f32::from_bits(r.max_density), 0.0010);
    assert!(r.needs_particle_init);
}

#[test]
fn frame_rate_windows() {
    let mut r = viewer(None);
    assert!(r.starts_fps_window());
    assert_eq!(r.count_frame(false), None);
    assert!(!r.starts_fps_window());
    assert_eq!(r.count_frame(false), None);
    assert_eq!(r.count_frame(true), Some(3));
    assert!(r.starts_fps_window());
    assert_eq!(r.count_frame(true), Some(1));
}

#[test]
fn barriers_within_and_between_queues() {
    let b = image_barrier(Target::Swap, 0, 2, 0, 0x100, 1, 0x400);
    assert_eq!((b.src_family, b.dst_family), (u32::MAX, u32::MAX));
    assert_eq!((b.old_layout, b.new_layout, b.dst_access, b.dst_stage), (0, 2, 0x100, 0x400));
    let r = queue_family_release(volume(1), 4, 5, 5);
    let a = queue_family_acquire(volume(1), 4, 5, 5);
    assert_eq!((r.image, r.old_layout, r.new_layout), (a.image, a.old_layout, a.new_layout));
    assert_eq!((r.src_family, r.dst_family), (4, 5));
    assert_eq!((a.src_family, a.dst_family), (4, 5));
    assert_eq!((r.src_access, r.dst_access, r.src_stage, r.dst_stage), (0x40, 0, 0x800, 0x2000));
    assert_eq!((a.src_access, a.dst_access, a.src_stage, a.dst_stage), (0, 0x20, 1, 0x880));
}

#[test]
fn compute_work_of_a_new_frame() {
    let cs = record_compute_work(1, false, None);
    assert_eq!(cs.len(), 9);
    assert_eq!(bound(&cs), vec![Pass::Wavefunction, Pass::Mipmap]);
    assert_eq!(cs[3], Command::Dispatch { x: 16, y: 16, z: 16 });
    assert_eq!(
        cs[6],
        Command::Push(Push::Mipmap { fine_grid_size: 128, coarse_grid_size: 16, block_size: 8 })
    );
    assert_eq!(cs[7], Command::Dispatch { x: 4, y: 4, z: 4 });
    let moves: Vec<(Target, i32, i32)> =
        barriers(&cs).iter().map(|b| (b.image, b.old_layout, b.new_layout)).collect();
    assert_eq!(
        moves,
        vec![(volume(1), 0, 1), (psi_max(1), 0, 1), (volume(1), 1, 5), (psi_max(1), 1, 5)]
    );
}

#[test]
fn compute_work_for_another_family() {
    let cs = record_compute_work(0, true, Some((3, 0)));
    assert_eq!(cs.len(), 11);
    let bs = barriers(&cs);
    assert_eq!((bs[0].old_layout, bs[1].old_layout), (5, 5));
    assert_eq!(bs[4], queue_family_release(volume(0), 3, 0, 5));
    assert_eq!(bs[5], queue_family_release(psi_max(0), 3, 0, 5));
}

#[test]
fn an_image_that_is_out_of_date_leaves_all_as_it_was() {
    let mut r = viewer(Some(1));
    r.show_particles = true;
    assert!(r.render_frame(Acquired::OutOfDate, &vec![], "").is_none());
    assert_eq!((r.frame_index, r.timeline_value, r.frame_counter), (0, 0, 0));
    assert_eq!(r.initialized, vec![false, false]);
}

#[test]
fn a_frame_on_one_queue() {
    let mut r = viewer(None);
    let p = draw(&mut r);
    assert_eq!((p.slot, p.image_index), (0, 1));
    assert!(p.async_work.is_none());
    assert_eq!(
        bound(&p.commands),
        vec![Pass::Wavefunction, Pass::Mipmap, Pass::Raymarch, Pass::Text]
    );
    assert_eq!(
        p.waits,
        vec![Wait { semaphore: Semaphore::ImageAvailable, stage: 0x400, value: 0 }]
    );
    assert_eq!(p.signal, Signal { semaphore: Semaphore::RenderFinished, value: 0 });
    assert_eq!((r.frame_index, r.timeline_value), (1, 0));
    assert_eq!(r.initialized, vec![true, false]);
}

#[test]
fn a_frame_on_two_queues() {
    let mut r = viewer(Some(2));
    let p = draw(&mut r);
    let work = p.async_work.unwrap();
    assert_eq!(work.signal, Signal { semaphore: Semaphore::Timeline, value: 1 });
    assert_eq!(work.commands, record_compute_work(0, false, Some((2, 0))));
    assert_eq!(p.commands[0], Command::Image(queue_family_acquire(volume(0), 2, 0, 5)));
    assert_eq!(p.commands[1], Command::Image(queue_family_acquire(psi_max(0), 2, 0, 5)));
    assert_eq!(bound(&p.commands), vec![Pass::Raymarch, Pass::Text]);
    assert_eq!(p.waits[1], Wait { semaphore: Semaphore::Timeline, stage: 0x80, value: 1 });
    let p = draw(&mut r);
    assert_eq!(p.slot, 1);
    assert_eq!(p.async_work.unwrap().signal.value, 2);
    assert_eq!(p.waits[1].value, 2);
    let p = draw(&mut r);
    assert_eq!(p.slot, 0);
    assert_eq!(p.async_work.unwrap().commands, record_compute_work(0, true, Some((2, 0))));
}

#[test]
fn moving_particles_wait_for_the_volume() {
    let mut r = viewer(Some(2));
    r.show_particles = true;
    let p = draw(&mut r);
    assert!(bound(&p.commands).contains(&Pass::Particles));
    assert_eq!(p.waits[1], Wait { semaphore: Semaphore::Timeline, stage: 0x880, value: 1 });
    let p = draw(&mut r);
    assert!(!bound(&p.commands).contains(&Pass::Particles));
    assert_eq!(p.waits[1], Wait { semaphore: Semaphore::Timeline, stage: 0x80, value: 2 });
    let p = draw(&mut r);
    assert_eq!(p.waits[1], Wait { semaphore: Semaphore::Timeline, stage: 0x880, value: 3 });
    assert!(r.toggle_perf_async());
    draw(&mut r);
    assert_eq!(draw(&mut r).waits.len(), 1);
}

#[test]
fn two_queues_of_one_family_hand_nothing_over() {
    let mut r = viewer(Some(0));
    let p = draw(&mut r);
    assert_eq!(p.async_work.unwrap().commands, record_compute_work(0, false, None));
    assert_eq!(barriers(&p.commands).len(), 2);
}

#[test]
fn what_is_drawn() {
    let mut r = viewer(None);
    r.show_particles = true;
    r.toggle_view_mode();
    r.emit_wave(Triple { x: 0, y: 0, z: 0 }, Triple { x: 1, y: 1, z: 1 }, 9, 3);
    let p = draw(&mut r);
    assert_eq!(
        bound(&p.commands),
        vec![
            Pass::Wavefunction,
            Pass::Mipmap,
            Pass::Particles,
            Pass::Heatmap,
            Pass::Billboards,
            Pass::Waves,
            Pass::Text,
        ]
    );
    assert!(p.commands.contains(&Command::Draw { vertices: 3, instances: 1 }));
    assert!(p.commands.contains(&Command::Draw { vertices: 6, instances: 32768 }));
    assert!(p.commands.contains(&Command::DrawIndexed { indices: 960, instances: 1 }));
    assert!(p.commands.contains(&Command::Draw { vertices: 6, instances: p.text.len() as u32 }));
    assert!(p.commands.contains(&Command::BeginRendering(Rendering {
        width: 1280,
        height: 720,
        layout: 2,
        load_op: 1,
        store_op: 0,
        clear_red: 0.0f32.to_bits(),
        clear_green: 0.0f32.to_bits(),
        clear_blue: 0.0f32.to_bits(),
        clear_alpha: 1.0f32.to_bits(),
    })));
    assert_eq!(p.wave_rows.len(), 1);
    let p = draw(&mut r);
    assert!(!bound(&p.commands).contains(&Pass::Particles));
    assert!(bound(&p.commands).contains(&Pass::Billboards));
    r.show_volume = false;
    r.show_waves = false;
    r.show_particles = false;
    let p = draw(&mut r);
    assert_eq!(bound(&p.commands), vec![Pass::Wavefunction, Pass::Mipmap, Pass::Text]);
}

#[test]
fn the_shown_image_goes_to_the_screen() {
    let p = draw(&mut viewer(Some(2)));
    let moves: Vec<(i32, i32)> = barriers(&p.commands)
        .iter()
        .filter(|b| b.image == Target::Swap)
        .map(|b| (b.old_layout, b.new_layout))
        .collect();
    assert_eq!(moves, vec![(0, 2), (2, 1_000_001_002)]);
}

fn particle_push(p: &FramePlan) -> Option<Push> {
    p.commands.iter().find_map(|c| match c {
        Command::Push(push @ Push::Particles { .. }) => Some(*push),
        _ => None,
    })
}

#[test]
fn particles_are_placed_once_then_moved() {
    let mut r = viewer(None);
    r.show_particles = true;
    r.frame_counter = u32::MAX - 1;
    let push = |mode, seed| Some(Push::Particles { mode, seed, num_particles: 32768 });
    assert_eq!(particle_push(&draw(&mut r)), push(0, u32::MAX));
    assert_eq!(particle_push(&draw(&mut r)), None);
    assert_eq!(particle_push(&draw(&mut r)), push(1, 0));
    assert_eq!(r.frame_counter, 0);
    r.request_particle_reseed();
    assert_eq!(particle_push(&draw(&mut r)), None);
    assert!(r.needs_particle_init);
    assert_eq!(particle_push(&draw(&mut r)), push(0, 1));
    assert!(!r.needs_particle_init);
}

#[test]
fn shells_end_in_a_frame() {
    let mut r = viewer(None);
    let zero = Triple { x: 0, y: 0, z: 0 };
    r.emit_wave(zero, zero, 1, 10);
    r.emit_wave(zero, zero, 1, 11);
    let steps = vec![
        WaveStep { radius: 2, age: 3, alive: false },
        WaveStep { radius: 4, age: 5, alive: true },
    ];
    let p = r.render_frame(Acquired::Image(0), &steps, "").unwrap();
    assert_eq!(p.wave_rows.len(), 1);
    assert_eq!((p.wave_rows[0].radius, p.wave_rows[0].age), (4, 5));
    assert_eq!(r.waves.len(), 1);
    assert_eq!(r.waves[0].speed, 11);
}

#[test]
fn numbers_for_the_shaders() {
    let mut r = viewer(None);
    r.components = Vec::new();
    for n in 1..=10 {
        r.components.extend(pure(n, 0, 0, n as u32));
    }
    r.toggle_view_mode();
    r.show_contour = false;
    let p = draw(&mut r);
    assert_eq!(p.components.num_components, 10);
    assert_eq!(p.components.grid_size, 128);
    assert_eq!(p.components.terms.len(), 8);
    assert_eq!(p.components.terms[7].n, 8);
    let c = p.camera;
    assert_eq!((c.view_mode, c.slice_axis, c.color_mode), (1, 1, 1));
    assert_eq!((c.contour, c.mipskip, c.coarse_grid), (0, 1, 16));
    assert_eq!(f32::from_bits(c.max_density), 0.05);
}

/// Follows the layouts of the images through a list of commands.
fn follow(layouts: &mut HashMap<Target, i32>, cs: &[Command], slot: usize) {
    let mut pass = None;
    for c in cs {
        match *c {
            Command::Image(b) => {
                let now = layouts.get(&b.image).copied().unwrap_or(0);
                assert!(b.old_layout == 0 || b.old_layout == now, "{:?} in {}", b, now);
                layouts.insert(b.image, b.new_layout);
            }
            Command::Bind(p) => pass = Some(p),
            Command::Dispatch { .. } | Command::Draw { .. } | Command::DrawIndexed { .. } => {
                let set = frame_set(pass.unwrap(), slot);
                let mut writes = frame_writes(slot);
                writes.extend(particle_writes());
                writes.extend(text_writes());
                for w in writes.iter().filter(|w| w.set == set) {
                    if let Source::Image { image, layout, .. } = w.source {
                        assert_eq!(layouts.get(&Target::Named(image)), Some(&layout), "{:?}", set);
                    }
                }
            }
            _ => {}
        }
    }
}

#[test]
fn frames_use_images_in_order() {
    for family in [None, Some(0), Some(2)] {
        let mut r = viewer(family);
        let mut layouts = HashMap::new();
        layouts.insert(Target::Named(ImageName::Font), 5);
        for n in 0..40 {
            if n % 7 == 3 {
                assert_eq!(r.toggle_perf_async(), family.is_some());
            }
            r.show_particles = n % 3 != 0;
            r.show_volume = n % 4 != 0;
            if n % 5 == 0 {
                r.toggle_view_mode();
            }
            let p = draw(&mut r);
            if let Some(work) = &p.async_work {
                follow(&mut layouts, &work.commands, p.slot);
            }
            follow(&mut layouts, &p.commands, p.slot);
            assert_eq!(layouts[&Target::Swap], 1_000_001_002);
            assert_eq!(layouts[&volume(p.slot)], 5);
            assert_eq!(layouts[&psi_max(p.slot)], 5);
        }
    }
}

#[test]
fn the_graphics_queue_only_draws_while_particles_rest() {
    let mut r = viewer(Some(2));
    let computes = |p: &FramePlan| p.commands.iter().any(|c| matches!(c, Command::Dispatch { .. }));
    assert!(!computes(&draw(&mut r)));
    r.show_particles = true;
    assert!(!computes(&draw(&mut r)));
    assert!(computes(&draw(&mut r)));
}
