//! What the commands of a frame make the device do: which pass runs, in which order, and
//! how much of it.

use crate::commands;
use crate::commands::{Command, Push, Target};
use crate::floats::{ONE_BITS, ZERO_BITS};
use crate::frame;
use crate::icosphere;
use crate::numbers::{
    ACCESS_COLOR_ATTACHMENT_WRITE, ACCESS_NONE, ACCESS_SHADER_READ, ACCESS_SHADER_WRITE,
    LAYOUT_COLOR_ATTACHMENT, LAYOUT_GENERAL, LAYOUT_PRESENT_SRC, LOAD_CLEAR,
    STAGE_COLOR_ATTACHMENT_OUTPUT, STAGE_COMPUTE_SHADER, STAGE_FRAGMENT_AND_COMPUTE,
    STAGE_VERTEX_SHADER, STORE_STORE,
};
use crate::presets::{PresetModel, MAX_COMPONENTS};
use crate::renderer;
use crate::renderer::{ColorMode, RendererModel, SliceAxis, ViewMode};
use crate::resources;
use crate::resources::{
    BufferName, ImageName, Pass, COARSE_BLOCK, COARSE_GRID_SIZE, GRID_SIZE, PARTICLE_COUNT, WAVE_SUBDIV,
};
use crate::swapchain::Extent;
use crate::waves::{WaveStep, MAX_WAVES};
use vstd::prelude::*;

verus! {

/// Whether a command has the bound pass run.
pub open spec fn is_run(c: Command) -> bool {
    c is Dispatch || c is Draw || c is DrawIndexed
}

/// The pass that is bound after some commands, where `start` was bound before.
pub open spec fn bound_after(start: Option<Pass>, cs: Seq<Command>) -> Option<Pass>
    decreases cs.len(),
{
    if cs.len() == 0 {
        start
    } else {
        match cs.last() {
            Command::Bind(pass) => Some(pass),
            _ => bound_after(start, cs.drop_last()),
        }
    }
}

/// The commands by which a pass runs, where `start` was bound before.
pub open spec fn work_of(start: Option<Pass>, pass: Pass, cs: Seq<Command>) -> Seq<Command>
    decreases cs.len(),
{
    if cs.len() == 0 {
        Seq::empty()
    } else {
        let before = work_of(start, pass, cs.drop_last());
        if is_run(cs.last()) && bound_after(start, cs.drop_last()) == Some(pass) {
            before.push(cs.last())
        } else {
            before
        }
    }
}

/// The passes that some commands bind, in order.
pub open spec fn passes_of(cs: Seq<Command>) -> Seq<Pass>
    decreases cs.len(),
{
    if cs.len() == 0 {
        Seq::empty()
    } else {
        match cs.last() {
            Command::Bind(pass) => passes_of(cs.drop_last()).push(pass),
            _ => passes_of(cs.drop_last()),
        }
    }
}

/// What a pass is handed with the commands, where `start` was bound before.
pub open spec fn told_of(start: Option<Pass>, pass: Pass, cs: Seq<Command>) -> Seq<Push>
    decreases cs.len(),
{
    if cs.len() == 0 {
        Seq::empty()
    } else {
        let before = told_of(start, pass, cs.drop_last());
        match cs.last() {
            Command::Push(push) => if bound_after(start, cs.drop_last()) == Some(pass) {
                before.push(push)
            } else {
                before
            },
            _ => before,
        }
    }
}

broadcast proof fn lemma_push_command(start: Option<Pass>, pass: Pass, cs: Seq<Command>, c: Command)
    ensures
        #[trigger] work_of(start, pass, cs.push(c)) == (if is_run(c) && bound_after(start, cs)
            == Some(pass) {
            work_of(start, pass, cs).push(c)
        } else {
            work_of(start, pass, cs)
        }),
        bound_after(start, cs.push(c)) == (match c {
            Command::Bind(p) => Some(p),
            _ => bound_after(start, cs),
        }),
        passes_of(cs.push(c)) == (match c {
            Command::Bind(p) => passes_of(cs).push(p),
            _ => passes_of(cs),
        }),
        told_of(start, pass, cs.push(c)) == (match c {
            Command::Push(p) => if bound_after(start, cs) == Some(pass) {
                told_of(start, pass, cs).push(p)
            } else {
                told_of(start, pass, cs)
            },
            _ => told_of(start, pass, cs),
        }),
{
    assert(cs.push(c).drop_last() =~= cs);
}

proof fn lemma_concat_commands(start: Option<Pass>, pass: Pass, a: Seq<Command>, b: Seq<Command>)
    ensures
        work_of(start, pass, a + b) == work_of(start, pass, a) + work_of(
            bound_after(start, a),
            pass,
            b,
        ),
        bound_after(start, a + b) == bound_after(bound_after(start, a), b),
        passes_of(a + b) == passes_of(a) + passes_of(b),
        told_of(start, pass, a + b) == told_of(start, pass, a) + told_of(
            bound_after(start, a),
            pass,
            b,
        ),
    decreases b.len(),
{
    if b.len() == 0 {
        assert(a + b =~= a);
        assert(work_of(start, pass, a) + Seq::<Command>::empty() =~= work_of(start, pass, a));
        assert(passes_of(a) + Seq::<Pass>::empty() =~= passes_of(a));
        assert(told_of(start, pass, a) + Seq::<Push>::empty() =~= told_of(start, pass, a));
    } else {
        lemma_concat_commands(start, pass, a, b.drop_last());
        assert((a + b).drop_last() =~= a + b.drop_last());
        assert((a + b).last() == b.last());
        assert(work_of(start, pass, a + b) =~= work_of(start, pass, a) + work_of(
            bound_after(start, a),
            pass,
            b,
        ));
        assert(passes_of(a + b) =~= passes_of(a) + passes_of(b));
        assert(told_of(start, pass, a + b) =~= told_of(start, pass, a) + told_of(
            bound_after(start, a),
            pass,
            b,
        ));
    }
}

proof fn lemma_volume_work(slot: usize, was_init: bool, start: Option<Pass>, pass: Pass)
    ensures
        ({
            let cs = commands::volume_work(slot, was_init);
            &&& passes_of(cs) == seq![Pass::Wavefunction, Pass::Mipmap]
            &&& told_of(start, pass, cs) == (if pass == Pass::Mipmap {
                seq![
                    Push::Mipmap {
                        fine_grid_size: GRID_SIZE as i32,
                        coarse_grid_size: COARSE_GRID_SIZE as i32,
                        block_size: COARSE_BLOCK as i32,
                    },
                ]
            } else {
                Seq::empty()
            })
            &&& work_of(start, pass, cs) == (if pass == Pass::Wavefunction {
                seq![Command::Dispatch { x: 16, y: 16, z: 16 }]
            } else if pass == Pass::Mipmap {
                seq![Command::Dispatch { x: 4, y: 4, z: 4 }]
            } else {
                Seq::empty()
            })
        }),
{
    broadcast use lemma_push_command;

    let cs = commands::volume_work(slot, was_init);
    let s0 = Seq::<Command>::empty();
    let s1 = s0.push(cs[0]);
    let s2 = s1.push(cs[1]);
    let s3 = s2.push(cs[2]);
    let s4 = s3.push(cs[3]);
    let s5 = s4.push(cs[4]);
    let s6 = s5.push(cs[5]);
    let s7 = s6.push(cs[6]);
    let s8 = s7.push(cs[7]);
    let s9 = s8.push(cs[8]);
    assert(cs =~= s9);
    assert(work_of(start, pass, s9) =~= (if pass == Pass::Wavefunction {
        seq![Command::Dispatch { x: 16, y: 16, z: 16 }]
    } else if pass == Pass::Mipmap {
        seq![Command::Dispatch { x: 4, y: 4, z: 4 }]
    } else {
        Seq::empty()
    }));
    assert(passes_of(s9) =~= seq![Pass::Wavefunction, Pass::Mipmap]);
    assert(told_of(start, pass, s9) =~= (if pass == Pass::Mipmap {
        seq![
            Push::Mipmap {
                fine_grid_size: GRID_SIZE as i32,
                coarse_grid_size: COARSE_GRID_SIZE as i32,
                block_size: COARSE_BLOCK as i32,
            },
        ]
    } else {
        Seq::empty()
    }));
}

proof fn lemma_release_work(
    slot: usize,
    release_to: Option<(u32, u32)>,
    start: Option<Pass>,
    pass: Pass,
)
    ensures
        work_of(start, pass, commands::release_work(slot, release_to)) == Seq::<Command>::empty(),
        passes_of(commands::release_work(slot, release_to)) == Seq::<Pass>::empty(),
        told_of(start, pass, commands::release_work(slot, release_to)) == Seq::<Push>::empty(),
{
    broadcast use lemma_push_command;

    if release_to is Some {
        let cs = commands::release_work(slot, release_to);
        let s0 = Seq::<Command>::empty();
        let s1 = s0.push(cs[0]);
        let s2 = s1.push(cs[1]);
        assert(cs =~= s2);
        assert(work_of(start, pass, s1) == Seq::<Command>::empty());
        assert(work_of(start, pass, s2) == Seq::<Command>::empty());
    }
}

/// The compute work of a frame runs each of its two passes once, the wavefunction first,
/// with just enough groups to reach every voxel: the wavefunction's groups are eight
/// voxels wide in each direction, those of the density maximum four coarse voxels. The
/// shader of the second is told the sizes of both grids and of the blocks between them.
pub proof fn law_compute_work_reaches_every_voxel(
    slot: usize,
    was_init: bool,
    release_to: Option<(u32, u32)>,
)
    ensures
        ({
            let cs = commands::compute_work(slot, was_init, release_to);
            let wave = work_of(None, Pass::Wavefunction, cs);
            let mip = work_of(None, Pass::Mipmap, cs);
            &&& passes_of(cs) == seq![Pass::Wavefunction, Pass::Mipmap]
            &&& wave.len() == 1
            &&& wave[0] matches Command::Dispatch { x, y, z } && x == y == z && x * 8 >= GRID_SIZE
                && (x - 1) * 8 < GRID_SIZE
            &&& mip.len() == 1
            &&& mip[0] matches Command::Dispatch { x, y, z } && x == y == z && x * 4
                >= COARSE_GRID_SIZE && (x - 1) * 4 < COARSE_GRID_SIZE
            &&& told_of(None, Pass::Mipmap, cs).len() == 1
            &&& told_of(None, Pass::Mipmap, cs)[0] matches Push::Mipmap {
                fine_grid_size,
                coarse_grid_size,
                block_size,
            } && fine_grid_size == GRID_SIZE && coarse_grid_size == COARSE_GRID_SIZE && block_size
                * coarse_grid_size == fine_grid_size
        }),
{
    lemma_compute_work(slot, was_init, release_to, None, Pass::Wavefunction);
    lemma_compute_work(slot, was_init, release_to, None, Pass::Mipmap);
}

proof fn lemma_compute_work(
    slot: usize,
    was_init: bool,
    release_to: Option<(u32, u32)>,
    start: Option<Pass>,
    pass: Pass,
)
    ensures
        ({
            let cs = commands::compute_work(slot, was_init, release_to);
            &&& passes_of(cs) == seq![Pass::Wavefunction, Pass::Mipmap]
            &&& told_of(start, pass, cs) == (if pass == Pass::Mipmap {
                seq![
                    Push::Mipmap {
                        fine_grid_size: GRID_SIZE as i32,
                        coarse_grid_size: COARSE_GRID_SIZE as i32,
                        block_size: COARSE_BLOCK as i32,
                    },
                ]
            } else {
                Seq::empty()
            })
            &&& work_of(start, pass, cs) == (if pass == Pass::Wavefunction {
                seq![Command::Dispatch { x: 16, y: 16, z: 16 }]
            } else if pass == Pass::Mipmap {
                seq![Command::Dispatch { x: 4, y: 4, z: 4 }]
            } else {
                Seq::empty()
            })
        }),
{
    let a = commands::volume_work(slot, was_init);
    let b = commands::release_work(slot, release_to);
    lemma_volume_work(slot, was_init, start, pass);
    lemma_release_work(slot, release_to, bound_after(start, a), pass);
    lemma_concat_commands(start, pass, a, b);
    assert(work_of(start, pass, a) + Seq::<Command>::empty() =~= work_of(start, pass, a));
    assert(passes_of(a) + Seq::<Pass>::empty() =~= passes_of(a));
    assert(told_of(start, pass, a) + Seq::<Push>::empty() =~= told_of(start, pass, a));
}

/// The pass by which the volume is shown.
pub open spec fn shown_as(v: ViewMode) -> Pass {
    if v is Volume {
        Pass::Raymarch
    } else {
        Pass::Heatmap
    }
}

proof fn lemma_particle_runs(r: RendererModel, start: Option<Pass>, pass: Pass)
    ensures
        work_of(start, pass, frame::particle_work(r)) == (if r.show_particles && r.frame_index == 0 && pass == Pass::Particles {
            seq![Command::Dispatch { x: 512, y: 1, z: 1 }]
        } else {
            Seq::empty()
        }),
        passes_of(frame::particle_work(r)) == (if r.show_particles && r.frame_index == 0 {
            seq![Pass::Particles]
        } else {
            Seq::empty()
        }),
        told_of(start, pass, frame::particle_work(r)) == (if r.show_particles && r.frame_index == 0 && pass == Pass::Particles {
            seq![Push::Particles {
            mode: if r.needs_particle_init { 0 } else { 1 },
            seed: frame::wrapped_next(r.frame_counter),
            num_particles: PARTICLE_COUNT,
        }]
        } else {
            Seq::empty()
        }),
{
    broadcast use lemma_push_command;

    let cs = frame::particle_work(r);
    let s0 = Seq::<Command>::empty();
    if r.show_particles && r.frame_index == 0 {
        let s1 = s0.push(cs[0]);
        let s2 = s1.push(cs[1]);
        let s3 = s2.push(cs[2]);
        let s4 = s3.push(cs[3]);
        assert(cs =~= s4);
        assert(work_of(start, pass, s1) == work_of(start, pass, s1));
        assert(work_of(start, pass, s2) == work_of(start, pass, s2));
        assert(work_of(start, pass, s3) == work_of(start, pass, s3));
        assert(work_of(start, pass, s4) == work_of(start, pass, s4));
        assert(work_of(start, pass, cs) =~= if pass == Pass::Particles {
            seq![Command::Dispatch { x: 512, y: 1, z: 1 }]
        } else {
            Seq::empty()
        });
        assert(passes_of(cs) =~= seq![Pass::Particles]);
        assert(told_of(start, pass, cs) =~= if pass == Pass::Particles {
            seq![Push::Particles {
                mode: if r.needs_particle_init { 0 } else { 1 },
                seed: frame::wrapped_next(r.frame_counter),
                num_particles: PARTICLE_COUNT,
            }]
        } else {
            Seq::empty()
        });
    }
}

proof fn lemma_begin_runs(e: Extent, start: Option<Pass>, pass: Pass)
    ensures
        work_of(start, pass, frame::begin_work(e)) == (Seq::<Command>::empty()),
        passes_of(frame::begin_work(e)) == (Seq::<Pass>::empty()),
        told_of(start, pass, frame::begin_work(e)) == (Seq::<Push>::empty()),
{
    broadcast use lemma_push_command;

    let cs = frame::begin_work(e);
    let s0 = Seq::<Command>::empty();
    let s1 = s0.push(cs[0]);
    let s2 = s1.push(cs[1]);
    let s3 = s2.push(cs[2]);
    let s4 = s3.push(cs[3]);
    assert(cs =~= s4);
    assert(work_of(start, pass, s1) == work_of(start, pass, s1));
    assert(work_of(start, pass, s2) == work_of(start, pass, s2));
    assert(work_of(start, pass, s3) == work_of(start, pass, s3));
    assert(work_of(start, pass, s4) == work_of(start, pass, s4));
}

proof fn lemma_volume_draw_runs(r: RendererModel, start: Option<Pass>, pass: Pass)
    ensures
        work_of(start, pass, frame::volume_draw(r)) == (if r.show_volume && pass == shown_as(r.view_mode) {
            seq![Command::Draw { vertices: 3, instances: 1 }]
        } else {
            Seq::empty()
        }),
        passes_of(frame::volume_draw(r)) == (if r.show_volume {
            seq![shown_as(r.view_mode)]
        } else {
            Seq::empty()
        }),
        told_of(start, pass, frame::volume_draw(r)) == (Seq::<Push>::empty()),
{
    broadcast use lemma_push_command;

    let cs = frame::volume_draw(r);
    let s0 = Seq::<Command>::empty();
    if r.show_volume {
        let s1 = s0.push(cs[0]);
        let s2 = s1.push(cs[1]);
        assert(cs =~= s2);
        assert(work_of(start, pass, s1) == work_of(start, pass, s1));
        assert(work_of(start, pass, s2) == work_of(start, pass, s2));
        assert(work_of(start, pass, cs) =~= if pass == shown_as(r.view_mode) {
            seq![Command::Draw { vertices: 3, instances: 1 }]
        } else {
            Seq::empty()
        });
        assert(passes_of(cs) =~= seq![shown_as(r.view_mode)]);
    }
}

proof fn lemma_billboard_runs(r: RendererModel, start: Option<Pass>, pass: Pass)
    ensures
        work_of(start, pass, frame::billboard_draw(r)) == (if r.show_particles && pass == Pass::Billboards {
            seq![Command::Draw { vertices: 6, instances: PARTICLE_COUNT }]
        } else {
            Seq::empty()
        }),
        passes_of(frame::billboard_draw(r)) == (if r.show_particles {
            seq![Pass::Billboards]
        } else {
            Seq::empty()
        }),
        told_of(start, pass, frame::billboard_draw(r)) == (if r.show_particles && pass == Pass::Billboards {
            seq![Push::Billboards]
        } else {
            Seq::empty()
        }),
{
    broadcast use lemma_push_command;

    let cs = frame::billboard_draw(r);
    let s0 = Seq::<Command>::empty();
    if r.show_particles {
        let s1 = s0.push(cs[0]);
        let s2 = s1.push(cs[1]);
        let s3 = s2.push(cs[2]);
        assert(cs =~= s3);
        assert(work_of(start, pass, s1) == work_of(start, pass, s1));
        assert(work_of(start, pass, s2) == work_of(start, pass, s2));
        assert(work_of(start, pass, s3) == work_of(start, pass, s3));
        assert(work_of(start, pass, cs) =~= if pass == Pass::Billboards {
            seq![Command::Draw { vertices: 6, instances: PARTICLE_COUNT }]
        } else {
            Seq::empty()
        });
        assert(passes_of(cs) =~= seq![Pass::Billboards]);
        assert(told_of(start, pass, cs) =~= if pass == Pass::Billboards {
            seq![Push::Billboards]
        } else {
            Seq::empty()
        });
    }
}

proof fn lemma_wave_runs(r: RendererModel, alive: nat, start: Option<Pass>, pass: Pass)
    ensures
        work_of(start, pass, frame::wave_draw(r, alive)) == (if r.show_waves && alive > 0 && pass == Pass::Waves {
            seq![Command::DrawIndexed { indices: 960, instances: frame::drawn_waves(alive) }]
        } else {
            Seq::empty()
        }),
        passes_of(frame::wave_draw(r, alive)) == (if r.show_waves && alive > 0 {
            seq![Pass::Waves]
        } else {
            Seq::empty()
        }),
        told_of(start, pass, frame::wave_draw(r, alive)) == (if r.show_waves && alive > 0 && pass == Pass::Waves {
            seq![Push::Waves]
        } else {
            Seq::empty()
        }),
{
    broadcast use lemma_push_command;

    let cs = frame::wave_draw(r, alive);
    let s0 = Seq::<Command>::empty();
    if r.show_waves && alive > 0 {
        let s1 = s0.push(cs[0]);
        let s2 = s1.push(cs[1]);
        let s3 = s2.push(cs[2]);
        let s4 = s3.push(cs[3]);
        assert(cs =~= s4);
        assert(work_of(start, pass, s1) == work_of(start, pass, s1));
        assert(work_of(start, pass, s2) == work_of(start, pass, s2));
        assert(work_of(start, pass, s3) == work_of(start, pass, s3));
        assert(work_of(start, pass, s4) == work_of(start, pass, s4));
        assert(work_of(start, pass, cs) =~= if pass == Pass::Waves {
            seq![Command::DrawIndexed { indices: 960, instances: frame::drawn_waves(alive) }]
        } else {
            Seq::empty()
        });
        assert(passes_of(cs) =~= seq![Pass::Waves]);
        assert(told_of(start, pass, cs) =~= if pass == Pass::Waves {
            seq![Push::Waves]
        } else {
            Seq::empty()
        });
    }
}

proof fn lemma_text_runs(e: Extent, quads: nat, start: Option<Pass>, pass: Pass)
    ensures
        work_of(start, pass, frame::text_draw(e, quads)) == (if quads > 0 && pass == Pass::Text {
            seq![Command::Draw { vertices: 6, instances: quads as u32 }]
        } else {
            Seq::empty()
        }),
        passes_of(frame::text_draw(e, quads)) == (if quads > 0 {
            seq![Pass::Text]
        } else {
            Seq::empty()
        }),
        told_of(start, pass, frame::text_draw(e, quads)) == (if quads > 0 && pass == Pass::Text {
            seq![Push::Text { width: e.width, height: e.height }]
        } else {
            Seq::empty()
        }),
{
    broadcast use lemma_push_command;

    let cs = frame::text_draw(e, quads);
    let s0 = Seq::<Command>::empty();
    if quads > 0 {
        let s1 = s0.push(cs[0]);
        let s2 = s1.push(cs[1]);
        let s3 = s2.push(cs[2]);
        assert(cs =~= s3);
        assert(work_of(start, pass, s1) == work_of(start, pass, s1));
        assert(work_of(start, pass, s2) == work_of(start, pass, s2));
        assert(work_of(start, pass, s3) == work_of(start, pass, s3));
        assert(work_of(start, pass, cs) =~= if pass == Pass::Text {
            seq![Command::Draw { vertices: 6, instances: quads as u32 }]
        } else {
            Seq::empty()
        });
        assert(passes_of(cs) =~= seq![Pass::Text]);
        assert(told_of(start, pass, cs) =~= if pass == Pass::Text {
            seq![Push::Text { width: e.width, height: e.height }]
        } else {
            Seq::empty()
        });
    }
}

proof fn lemma_end_runs(start: Option<Pass>, pass: Pass)
    ensures
        work_of(start, pass, frame::end_work()) == (Seq::<Command>::empty()),
        passes_of(frame::end_work()) == (Seq::<Pass>::empty()),
        told_of(start, pass, frame::end_work()) == (Seq::<Push>::empty()),
{
    broadcast use lemma_push_command;

    let cs = frame::end_work();
    let s0 = Seq::<Command>::empty();
    let s1 = s0.push(cs[0]);
    let s2 = s1.push(cs[1]);
    assert(cs =~= s2);
    assert(work_of(start, pass, s1) == work_of(start, pass, s1));
    assert(work_of(start, pass, s2) == work_of(start, pass, s2));
}

proof fn lemma_acquire_runs(slot: usize, src: u32, dst: u32, start: Option<Pass>, pass: Pass)
    ensures
        work_of(start, pass, commands::acquire_work(slot, src, dst)) == (Seq::<Command>::empty()),
        passes_of(commands::acquire_work(slot, src, dst)) == (Seq::<Pass>::empty()),
        told_of(start, pass, commands::acquire_work(slot, src, dst)) == (Seq::<Push>::empty()),
{
    broadcast use lemma_push_command;

    let cs = commands::acquire_work(slot, src, dst);
    let s0 = Seq::<Command>::empty();
    let s1 = s0.push(cs[0]);
    let s2 = s1.push(cs[1]);
    assert(cs =~= s2);
    assert(work_of(start, pass, s1) == work_of(start, pass, s1));
    assert(work_of(start, pass, s2) == work_of(start, pass, s2));
}

/// Whether the graphics commands compute the volume themselves.
pub open spec fn computes_inline(r: RendererModel) -> bool {
    !(r.perf_async && r.caps.async_compute_family is Some)
}

proof fn lemma_volume_source_runs(r: RendererModel, start: Option<Pass>, pass: Pass)
    ensures
        work_of(start, pass, frame::volume_source(r)) == (if computes_inline(r) && pass
            == Pass::Wavefunction {
            seq![Command::Dispatch { x: 16, y: 16, z: 16 }]
        } else if computes_inline(r) && pass == Pass::Mipmap {
            seq![Command::Dispatch { x: 4, y: 4, z: 4 }]
        } else {
            Seq::empty()
        }),
        passes_of(frame::volume_source(r)) == (if computes_inline(r) {
            seq![Pass::Wavefunction, Pass::Mipmap]
        } else {
            Seq::empty()
        }),
        told_of(start, pass, frame::volume_source(r)).len() == (if computes_inline(r) && pass
            == Pass::Mipmap {
            1int
        } else {
            0
        }),
{
    if computes_inline(r) {
        lemma_compute_work(
            r.frame_index,
            r.initialized[r.frame_index as int],
            None,
            start,
            pass,
        );
    } else if let Some((src, dst)) = frame::handover(r) {
        lemma_acquire_runs(r.frame_index, src, dst, start, pass);
    }
}

/// What runs in the graphics commands.
proof fn lemma_graphics_runs(r: RendererModel, alive: nat, quads: nat, pass: Pass)
    ensures
        ({
            let cs = frame::graphics_work(r, alive, quads);
            &&& work_of(None, pass, cs) == match pass {
                Pass::Wavefunction => if computes_inline(r) {
                    seq![Command::Dispatch { x: 16, y: 16, z: 16 }]
                } else {
                    Seq::empty()
                },
                Pass::Mipmap => if computes_inline(r) {
                    seq![Command::Dispatch { x: 4, y: 4, z: 4 }]
                } else {
                    Seq::empty()
                },
                Pass::Particles => if r.show_particles && r.frame_index == 0 {
                    seq![Command::Dispatch { x: 512, y: 1, z: 1 }]
                } else {
                    Seq::empty()
                },
                Pass::Billboards => if r.show_particles {
                    seq![Command::Draw { vertices: 6, instances: PARTICLE_COUNT }]
                } else {
                    Seq::empty()
                },
                Pass::Waves => if r.show_waves && alive > 0 {
                    seq![Command::DrawIndexed { indices: 960, instances: frame::drawn_waves(alive) }]
                } else {
                    Seq::empty()
                },
                Pass::Text => if quads > 0 {
                    seq![Command::Draw { vertices: 6, instances: quads as u32 }]
                } else {
                    Seq::empty()
                },
                _ => if r.show_volume && pass == shown_as(r.view_mode) {
                    seq![Command::Draw { vertices: 3, instances: 1 }]
                } else {
                    Seq::empty()
                },
            }
            &&& passes_of(cs) == (if computes_inline(r) {
                seq![Pass::Wavefunction, Pass::Mipmap]
            } else {
                Seq::empty()
            }) + (if r.show_particles && r.frame_index == 0 {
                seq![Pass::Particles]
            } else {
                Seq::empty()
            }) + (if r.show_volume {
                seq![shown_as(r.view_mode)]
            } else {
                Seq::empty()
            }) + (if r.show_particles {
                seq![Pass::Billboards]
            } else {
                Seq::empty()
            }) + (if r.show_waves && alive > 0 {
                seq![Pass::Waves]
            } else {
                Seq::empty()
            }) + (if quads > 0 {
                seq![Pass::Text]
            } else {
                Seq::empty()
            })
            &&& told_of(None, pass, cs) == match pass {
                Pass::Particles => if r.show_particles && r.frame_index == 0 {
                    seq![
                        Push::Particles {
                            mode: if r.needs_particle_init {
                                0
                            } else {
                                1
                            },
                            seed: frame::wrapped_next(r.frame_counter),
                            num_particles: PARTICLE_COUNT,
                        },
                    ]
                } else {
                    Seq::empty()
                },
                Pass::Billboards => if r.show_particles {
                    seq![Push::Billboards]
                } else {
                    Seq::empty()
                },
                Pass::Waves => if r.show_waves && alive > 0 {
                    seq![Push::Waves]
                } else {
                    Seq::empty()
                },
                Pass::Text => if quads > 0 {
                    seq![Push::Text { width: r.swap_extent.width, height: r.swap_extent.height }]
                } else {
                    Seq::empty()
                },
                _ => told_of(None, pass, frame::volume_source(r)),
            }
        }),
{
    let none: Option<Pass> = None;
    let c1 = frame::volume_source(r);
    lemma_volume_source_runs(r, none, pass);
    let c2 = frame::particle_work(r);
    let a2 = c1 + c2;
    lemma_concat_commands(none, pass, c1, c2);
    lemma_particle_runs(r, bound_after(none, c1), pass);
    let c3 = frame::begin_work(r.swap_extent);
    let a3 = a2 + c3;
    lemma_concat_commands(none, pass, a2, c3);
    lemma_begin_runs(r.swap_extent, bound_after(none, a2), pass);
    let c4 = frame::volume_draw(r);
    let a4 = a3 + c4;
    lemma_concat_commands(none, pass, a3, c4);
    lemma_volume_draw_runs(r, bound_after(none, a3), pass);
    let c5 = frame::billboard_draw(r);
    let a5 = a4 + c5;
    lemma_concat_commands(none, pass, a4, c5);
    lemma_billboard_runs(r, bound_after(none, a4), pass);
    let c6 = frame::wave_draw(r, alive);
    let a6 = a5 + c6;
    lemma_concat_commands(none, pass, a5, c6);
    lemma_wave_runs(r, alive, bound_after(none, a5), pass);
    let c7 = frame::text_draw(r.swap_extent, quads);
    let a7 = a6 + c7;
    lemma_concat_commands(none, pass, a6, c7);
    lemma_text_runs(r.swap_extent, quads, bound_after(none, a6), pass);
    let c8 = frame::end_work();
    lemma_concat_commands(none, pass, a7, c8);
    lemma_end_runs(bound_after(none, a7), pass);
    let cs = frame::graphics_work(r, alive, quads);
    assert(cs == a7 + c8);
    let w1 = work_of(none, pass, c1);
    let w2 = work_of(bound_after(none, c1), pass, c2);
    let w4 = work_of(bound_after(none, a3), pass, c4);
    let w5 = work_of(bound_after(none, a4), pass, c5);
    let w6 = work_of(bound_after(none, a5), pass, c6);
    let w7 = work_of(bound_after(none, a6), pass, c7);
    assert(work_of(none, pass, cs) =~= w1 + w2 + w4 + w5 + w6 + w7);
    assert(passes_of(cs) =~= passes_of(c1) + passes_of(c2) + passes_of(c4) + passes_of(c5)
        + passes_of(c6) + passes_of(c7));
    let t1 = told_of(none, pass, c1);
    let t2 = told_of(bound_after(none, c1), pass, c2);
    let t4 = told_of(bound_after(none, a3), pass, c4);
    let t5 = told_of(bound_after(none, a4), pass, c5);
    let t6 = told_of(bound_after(none, a5), pass, c6);
    let t7 = told_of(bound_after(none, a6), pass, c7);
    assert(told_of(none, pass, cs) =~= t1 + t2 + t4 + t5 + t6 + t7);
    assert(pass == Pass::Particles ==> t1 + t2 + t4 + t5 + t6 + t7 =~= t2);
    assert(pass == Pass::Billboards ==> t1 + t2 + t4 + t5 + t6 + t7 =~= t5);
    assert(pass == Pass::Waves ==> t1 + t2 + t4 + t5 + t6 + t7 =~= t6);
    assert(pass == Pass::Text ==> t1 + t2 + t4 + t5 + t6 + t7 =~= t7);
    assert(pass == Pass::Wavefunction || pass == Pass::Mipmap || pass == Pass::Raymarch || pass
        == Pass::Heatmap ==> t1 + t2 + t4 + t5 + t6 + t7 =~= t1);
    assert(pass == Pass::Wavefunction || pass == Pass::Mipmap ==> w1 + w2 + w4 + w5 + w6 + w7
        =~= w1);
    assert(pass == Pass::Particles ==> w1 + w2 + w4 + w5 + w6 + w7 =~= w2);
    assert(pass == Pass::Raymarch || pass == Pass::Heatmap ==> w1 + w2 + w4 + w5 + w6 + w7 =~= w4);
    assert(pass == Pass::Billboards ==> w1 + w2 + w4 + w5 + w6 + w7 =~= w5);
    assert(pass == Pass::Waves ==> w1 + w2 + w4 + w5 + w6 + w7 =~= w6);
    assert(pass == Pass::Text ==> w1 + w2 + w4 + w5 + w6 + w7 =~= w7);
}

/// Every particle is placed and moved: a frame that shows particles in the first slot runs
/// the particle pass once, with just enough groups of sixty-four threads for all particles
/// that it is told of, and those are all that the particles' buffer holds. It places them
/// where they were asked to be placed, else it moves them, with a number that changes from
/// one such frame to the next. No other frame runs the pass.
pub proof fn law_every_particle_moves(
    r: RendererModel,
    image: u32,
    steps: Seq<WaveStep>,
    fps: Seq<char>,
)
    ensures
        ({
            let cs = frame::frame_plan(r, image, steps, fps).commands;
            let work = work_of(None, Pass::Particles, cs);
            let told = told_of(None, Pass::Particles, cs);
            if r.show_particles && r.frame_index == 0 {
                &&& work.len() == 1
                &&& told.len() == 1
                &&& told[0] matches Push::Particles { mode, seed, num_particles } && {
                    &&& work[0] matches Command::Dispatch { x, y, z } && x * 64 >= num_particles
                        && (x - 1) * 64 < num_particles && y == 1 && z == 1
                    &&& num_particles * 16 == resources::buffer_spec_of(BufferName::Particles).size
                    &&& mode == (if r.needs_particle_init { 0u32 } else { 1u32 })
                    &&& seed == frame::frame_done(r, steps).frame_counter
                    &&& seed != r.frame_counter
                }
            } else {
                &&& work.len() == 0
                &&& told.len() == 0
                &&& frame::frame_done(r, steps).frame_counter == r.frame_counter
            }
        }),
{
    let p = frame::frame_plan(r, image, steps, fps);
    let alive = frame::frame_done(r, steps).waves.len();
    lemma_graphics_runs(r, alive, p.text.len(), Pass::Particles);
}

/// Every shell that goes on is drawn: where shells are shown and there are any, the shell
/// pass runs once, with one instance for each row that the shader is told, and over all
/// corners of the shell's triangles. There is a row for each shell that is left after the
/// step, as far as the shader has room, and it says where that shell is and what it looks
/// like.
pub proof fn law_every_wave_is_drawn(
    r: RendererModel,
    image: u32,
    steps: Seq<WaveStep>,
    fps: Seq<char>,
)
    ensures
        ({
            let p = frame::frame_plan(r, image, steps, fps);
            let left = frame::frame_done(r, steps).waves;
            let work = work_of(None, Pass::Waves, p.commands);
            &&& p.wave_rows.len() == (if left.len() <= MAX_WAVES {
                left.len() as int
            } else {
                MAX_WAVES as int
            })
            &&& forall|i: int|
                0 <= i < p.wave_rows.len() ==> {
                    let row = #[trigger] p.wave_rows[i];
                    &&& row.origin == left[i].origin
                    &&& row.radius == left[i].radius
                    &&& row.color == left[i].color
                    &&& row.age == left[i].age
                }
            &&& if r.show_waves && left.len() > 0 {
                &&& work.len() == 1
                &&& work[0] matches Command::DrawIndexed { indices, instances } && {
                    &&& instances == p.wave_rows.len()
                    &&& indices == 3 * icosphere::icosphere(WAVE_SUBDIV as nat).triangles.len()
                    &&& indices * 4 == resources::buffer_spec_of(BufferName::WaveIndices).size
                }
            } else {
                work.len() == 0
            }
        }),
{
    let p = frame::frame_plan(r, image, steps, fps);
    let alive = frame::frame_done(r, steps).waves.len();
    lemma_graphics_runs(r, alive, p.text.len(), Pass::Waves);
    resources::law_wave_shell_counts();
}

/// The volume is drawn over the whole picture by one triangle, by the pass of the chosen
/// view and by no other, where it is shown. The particles are drawn where they are shown,
/// two triangles for each. The text is drawn where there is any, two triangles for each
/// of its quads.
pub proof fn law_what_is_shown_is_drawn(
    r: RendererModel,
    image: u32,
    steps: Seq<WaveStep>,
    fps: Seq<char>,
)
    ensures
        ({
            let p = frame::frame_plan(r, image, steps, fps);
            let ray = work_of(None, Pass::Raymarch, p.commands);
            let heat = work_of(None, Pass::Heatmap, p.commands);
            let dots = work_of(None, Pass::Billboards, p.commands);
            let text = work_of(None, Pass::Text, p.commands);
            let screen = Command::Draw { vertices: 3, instances: 1 };
            &&& ray == (if r.show_volume && r.view_mode == ViewMode::Volume {
                seq![screen]
            } else {
                Seq::empty()
            })
            &&& heat == (if r.show_volume && r.view_mode == ViewMode::Heatmap {
                seq![screen]
            } else {
                Seq::empty()
            })
            &&& if r.show_particles {
                &&& dots.len() == 1
                &&& dots[0] matches Command::Draw { vertices, instances } && vertices == 6
                    && instances * 16 == resources::buffer_spec_of(BufferName::Particles).size
            } else {
                dots.len() == 0
            }
            &&& if p.text.len() > 0 {
                &&& text.len() == 1
                &&& text[0] matches Command::Draw { vertices, instances } && vertices == 6
                    && instances == p.text.len()
            } else {
                text.len() == 0
            }
        }),
{
    let p = frame::frame_plan(r, image, steps, fps);
    let alive = frame::frame_done(r, steps).waves.len();
    lemma_graphics_runs(r, alive, p.text.len(), Pass::Raymarch);
    lemma_graphics_runs(r, alive, p.text.len(), Pass::Heatmap);
    lemma_graphics_runs(r, alive, p.text.len(), Pass::Billboards);
    lemma_graphics_runs(r, alive, p.text.len(), Pass::Text);
    frame::law_draws_stay_within_buffers(r, steps, fps);
}

/// A frame's passes come in the order in which they need each other and cover each other:
/// the volume is computed before it is read, on this queue or on the other one, the
/// particles are moved before they are drawn, and the text lies over the shells, the
/// shells over the particles and the particles over the volume.
pub proof fn law_passes_come_in_order(
    r: RendererModel,
    image: u32,
    steps: Seq<WaveStep>,
    fps: Seq<char>,
)
    ensures
        ({
            let p = frame::frame_plan(r, image, steps, fps);
            let left = frame::frame_done(r, steps).waves;
            let compute = seq![Pass::Wavefunction, Pass::Mipmap];
            let none = Seq::<Pass>::empty();
            &&& p.async_work matches Some((work, signal)) ==> passes_of(work) == compute
            &&& p.async_work is Some <==> r.perf_async && r.caps.async_compute_family is Some
            &&& passes_of(p.commands) == (if p.async_work is Some {
                none
            } else {
                compute
            }) + (if r.show_particles && p.slot == 0 {
                seq![Pass::Particles]
            } else {
                none
            }) + (if !r.show_volume {
                none
            } else if r.view_mode == ViewMode::Volume {
                seq![Pass::Raymarch]
            } else {
                seq![Pass::Heatmap]
            }) + (if r.show_particles {
                seq![Pass::Billboards]
            } else {
                none
            }) + (if r.show_waves && left.len() > 0 {
                seq![Pass::Waves]
            } else {
                none
            }) + (if p.text.len() > 0 {
                seq![Pass::Text]
            } else {
                none
            })
        }),
{
    let p = frame::frame_plan(r, image, steps, fps);
    let alive = frame::frame_done(r, steps).waves.len();
    lemma_graphics_runs(r, alive, p.text.len(), Pass::Text);
    if r.use_async() {
        lemma_compute_work(
            r.frame_index,
            r.initialized[r.frame_index as int],
            frame::handover(r),
            None,
            Pass::Text,
        );
    }
}

/// The shader is told of the state as it is: term by term, as many as it has room for,
/// each with the numbers that the state gives it, and how many there are. The block that
/// it reads has room for its heads and for two rows of four floats for each of them.
pub proof fn law_shader_is_told_the_state(
    r: RendererModel,
    image: u32,
    steps: Seq<WaveStep>,
    fps: Seq<char>,
)
    ensures
        ({
            let p = frame::frame_plan(r, image, steps, fps);
            &&& p.terms.len() == (if r.components.len() <= MAX_COMPONENTS {
                r.components.len() as int
            } else {
                MAX_COMPONENTS as int
            })
            &&& forall|i: int|
                0 <= i < p.terms.len() ==> {
                    let t = #[trigger] p.terms[i];
                    let c = r.components[i];
                    &&& (t.n, t.l, t.m) == (c.n, c.l, c.m)
                    &&& (t.z, t.energy) == (c.z, c.energy)
                    &&& (t.c_real, t.c_imag) == (c.c_real, c.c_imag)
                }
            &&& r.components.len() <= i32::MAX ==> p.num_components == r.components.len()
            &&& p.grid_size == GRID_SIZE
            &&& 16 + 32 * MAX_COMPONENTS == resources::buffer_spec_of(
                BufferName::Components(p.slot),
            ).size
        }),
{
}

/// A preset that was chosen is what the next frame shows: the shader is told its terms
/// and its brightest density, and the particles are placed anew. Nothing else changes.
pub proof fn law_chosen_preset_is_shown(
    r: RendererModel,
    preset: PresetModel,
    image: u32,
    steps: Seq<WaveStep>,
    fps: Seq<char>,
)
    requires
        preset.components.len() <= MAX_COMPONENTS,
    ensures
        ({
            let after = renderer::preset_applied(r, preset);
            let p = frame::frame_plan(after, image, steps, fps);
            &&& p.terms == preset.components
            &&& p.num_components == preset.components.len()
            &&& p.camera.max_density == preset.max_density
            &&& after.needs_particle_init
            &&& r == (RendererModel {
                components: r.components,
                max_density: r.max_density,
                needs_particle_init: r.needs_particle_init,
                ..after
            })
        }),
{
    assert(frame::shown_terms(preset.components) =~= preset.components);
}

/// The drawing shaders are told how the picture is asked for: the view as zero for the
/// volume and one for the heatmap, the plane and the colors by their place in the order
/// XY, XZ, YZ and density, real, phase, the switches as zero and one, and the density as
/// it is.
pub proof fn law_shaders_are_told_the_view(
    r: RendererModel,
    image: u32,
    steps: Seq<WaveStep>,
    fps: Seq<char>,
)
    ensures
        ({
            let p = frame::frame_plan(r, image, steps, fps);
            let c = p.camera;
            &&& c.max_density == r.max_density
            &&& c.view_mode == 0 <==> r.view_mode == ViewMode::Volume
            &&& c.view_mode == 1 <==> r.view_mode == ViewMode::Heatmap
            &&& c.slice_axis == 0 <==> r.slice_axis == SliceAxis::XY
            &&& c.slice_axis == 1 <==> r.slice_axis == SliceAxis::XZ
            &&& c.slice_axis == 2 <==> r.slice_axis == SliceAxis::YZ
            &&& c.color_mode == 0 <==> r.color_mode == ColorMode::Density
            &&& c.color_mode == 1 <==> r.color_mode == ColorMode::Real
            &&& c.color_mode == 2 <==> r.color_mode == ColorMode::Phase
            &&& c.contour == 1 <==> r.show_contour
            &&& c.contour == 0 <==> !r.show_contour
            &&& c.mipskip == 1 <==> r.perf_mipskip
            &&& c.mipskip == 0 <==> !r.perf_mipskip
            &&& c.coarse_grid == COARSE_GRID_SIZE
        }),
{
}

/// A frame works in the slot that is due, draws to the image that it was given, and says
/// when it is done. It leaves all that was chosen as it was, and the images of the other
/// slot too.
pub proof fn law_frames_leave_choices_alone(
    r: RendererModel,
    image: u32,
    steps: Seq<WaveStep>,
    fps: Seq<char>,
)
    requires
        r.wf(),
    ensures
        ({
            let p = frame::frame_plan(r, image, steps, fps);
            let after = frame::frame_done(r, steps);
            &&& p.slot == r.frame_index
            &&& p.image_index == image
            &&& p.signal.semaphore == frame::Semaphore::RenderFinished
            &&& after.caps == r.caps
            &&& after.components == r.components
            &&& after.max_density == r.max_density
            &&& after.auto_orbit == r.auto_orbit
            &&& after.view_mode == r.view_mode
            &&& after.slice_axis == r.slice_axis
            &&& after.color_mode == r.color_mode
            &&& after.show_contour == r.show_contour
            &&& after.show_volume == r.show_volume
            &&& after.show_particles == r.show_particles
            &&& after.show_waves == r.show_waves
            &&& after.perf_mipskip == r.perf_mipskip
            &&& after.perf_async == r.perf_async
            &&& after.swap_extent == r.swap_extent
            &&& after.swap_image_count == r.swap_image_count
            &&& after.fps_accum_frames == r.fps_accum_frames
            &&& after.initialized[r.frame_index as int]
            &&& after.initialized[1 - r.frame_index] == r.initialized[1 - r.frame_index]
        }),
{
}

/// The commands that put the picture together: where drawing starts and ends, the part of
/// the window that it goes to, and what is drawn.
pub open spec fn picture_of(cs: Seq<Command>) -> Seq<Command>
    decreases cs.len(),
{
    if cs.len() == 0 {
        Seq::empty()
    } else {
        let before = picture_of(cs.drop_last());
        let c = cs.last();
        if c is BeginRendering || c is Viewport || c is Scissor || c is EndRendering || c is Draw
            || c is DrawIndexed {
            before.push(c)
        } else {
            before
        }
    }
}

proof fn lemma_picture_concat(a: Seq<Command>, b: Seq<Command>)
    ensures
        picture_of(a + b) == picture_of(a) + picture_of(b),
    decreases b.len(),
{
    if b.len() == 0 {
        assert(a + b =~= a);
        assert(picture_of(a) + Seq::<Command>::empty() =~= picture_of(a));
    } else {
        lemma_picture_concat(a, b.drop_last());
        assert((a + b).drop_last() =~= a + b.drop_last());
        assert((a + b).last() == b.last());
        assert(picture_of(a + b) =~= picture_of(a) + picture_of(b));
    }
}

/// Commands that only compute, move images or hand over numbers put nothing into the
/// picture.
proof fn lemma_no_picture(cs: Seq<Command>)
    requires
        forall|i: int|
            0 <= i < cs.len() ==> {
                let c = #[trigger] cs[i];
                c is Image || c is Particles || c is Bind || c is Push || c is Dispatch
            },
    ensures
        picture_of(cs) == Seq::<Command>::empty(),
    decreases cs.len(),
{
    if cs.len() > 0 {
        assert(cs.last() == cs[cs.len() - 1]);
        assert forall|i: int| 0 <= i < cs.drop_last().len() implies ({
            let c = #[trigger] cs.drop_last()[i];
            c is Image || c is Particles || c is Bind || c is Push || c is Dispatch
        }) by {
            assert(cs.drop_last()[i] == cs[i]);
        }
        lemma_no_picture(cs.drop_last());
    }
}

/// Commands that end in a draw and hold no other part of the picture.
proof fn lemma_one_draw(cs: Seq<Command>)
    requires
        cs.len() > 0,
        cs.last() is Draw || cs.last() is DrawIndexed,
        forall|i: int|
            0 <= i < cs.len() - 1 ==> {
                let c = #[trigger] cs[i];
                c is Bind || c is Push || c is WaveBuffers
            },
    ensures
        picture_of(cs) == seq![cs.last()],
{
    lemma_only_state(cs.drop_last());
    assert(picture_of(cs) =~= seq![cs.last()]);
}

proof fn lemma_only_state(cs: Seq<Command>)
    requires
        forall|i: int|
            0 <= i < cs.len() ==> {
                let c = #[trigger] cs[i];
                c is Bind || c is Push || c is WaveBuffers
            },
    ensures
        picture_of(cs) == Seq::<Command>::empty(),
    decreases cs.len(),
{
    if cs.len() > 0 {
        assert(cs.last() == cs[cs.len() - 1]);
        assert forall|i: int| 0 <= i < cs.drop_last().len() implies ({
            let c = #[trigger] cs.drop_last()[i];
            c is Bind || c is Push || c is WaveBuffers
        }) by {
            assert(cs.drop_last()[i] == cs[i]);
        }
        lemma_only_state(cs.drop_last());
    }
}

proof fn lemma_begin_picture(e: Extent)
    ensures
        picture_of(frame::begin_work(e)).len() == 3,
        picture_of(frame::begin_work(e))[0] matches Command::BeginRendering(b) && b.width == e.width
            && b.height == e.height && b.layout == LAYOUT_COLOR_ATTACHMENT && b.load_op
            == LOAD_CLEAR && b.store_op == STORE_STORE && b.clear_red == ZERO_BITS && b.clear_green
            == ZERO_BITS && b.clear_blue == ZERO_BITS && b.clear_alpha == ONE_BITS,
        picture_of(frame::begin_work(e))[1] == (Command::Viewport {
            width: e.width,
            height: e.height,
        }),
        picture_of(frame::begin_work(e))[2] == (Command::Scissor {
            width: e.width,
            height: e.height,
        }),
{
    let cs = frame::begin_work(e);
    let s1 = seq![cs[0]];
    let s2 = s1.push(cs[1]);
    let s3 = s2.push(cs[2]);
    let s4 = s3.push(cs[3]);
    assert(cs =~= s4);
    assert(s4.drop_last() =~= s3);
    assert(s3.drop_last() =~= s2);
    assert(s2.drop_last() =~= s1);
    lemma_no_picture(s1);
    assert(picture_of(s2) =~= seq![cs[1]]);
    assert(picture_of(s3) =~= seq![cs[1], cs[2]]);
    assert(picture_of(s4) =~= seq![cs[1], cs[2], cs[3]]);
}

/// The picture fills the window: drawing starts on all of it, from opaque black, the
/// viewport and the scissor rectangle are all of it before anything is drawn, everything
/// is drawn between the start and the end, and the text is laid out for the same size.
pub proof fn law_picture_fills_the_window(
    r: RendererModel,
    image: u32,
    steps: Seq<WaveStep>,
    fps: Seq<char>,
)
    ensures
        ({
            let cs = frame::frame_plan(r, image, steps, fps).commands;
            let all = picture_of(cs);
            let n = all.len() as int;
            let told = told_of(None, Pass::Text, cs);
            let e = r.swap_extent;
            &&& n >= 4
            &&& all[0] matches Command::BeginRendering(b) && b.width == e.width && b.height
                == e.height && b.layout == LAYOUT_COLOR_ATTACHMENT && b.load_op == LOAD_CLEAR
                && b.store_op == STORE_STORE && b.clear_red == b.clear_green == b.clear_blue
                == ZERO_BITS && b.clear_alpha == ONE_BITS
            &&& all[1] == (Command::Viewport { width: e.width, height: e.height })
            &&& all[2] == (Command::Scissor { width: e.width, height: e.height })
            &&& all[n - 1] == Command::EndRendering
            &&& forall|i: int|
                3 <= i < n - 1 ==> (#[trigger] all[i]) is Draw || all[i] is DrawIndexed
            &&& forall|i: int|
                0 <= i < told.len() ==> #[trigger] told[i] == (Push::Text {
                    width: e.width,
                    height: e.height,
                })
        }),
{
    let p = frame::frame_plan(r, image, steps, fps);
    let alive = frame::frame_done(r, steps).waves.len();
    let quads = p.text.len();
    lemma_graphics_runs(r, alive, quads, Pass::Text);
    lemma_graphics_picture(r, alive, quads);
}

proof fn lemma_graphics_picture(r: RendererModel, alive: nat, quads: nat)
    ensures
        ({
            let all = picture_of(frame::graphics_work(r, alive, quads));
            let start = picture_of(frame::begin_work(r.swap_extent));
            let n = all.len() as int;
            &&& n >= 4
            &&& start.len() == 3
            &&& all[0] == start[0]
            &&& all[1] == start[1]
            &&& all[2] == start[2]
            &&& start[0] matches Command::BeginRendering(b) && b.width == r.swap_extent.width
                && b.height == r.swap_extent.height && b.layout == LAYOUT_COLOR_ATTACHMENT
                && b.load_op == LOAD_CLEAR && b.store_op == STORE_STORE && b.clear_red
                == ZERO_BITS && b.clear_green == ZERO_BITS && b.clear_blue == ZERO_BITS
                && b.clear_alpha == ONE_BITS
            &&& start[1] == (Command::Viewport {
                width: r.swap_extent.width,
                height: r.swap_extent.height,
            })
            &&& start[2] == (Command::Scissor {
                width: r.swap_extent.width,
                height: r.swap_extent.height,
            })
            &&& all[n - 1] == Command::EndRendering
            &&& forall|i: int|
                3 <= i < n - 1 ==> (#[trigger] all[i]) is Draw || all[i] is DrawIndexed
        }),
{
    let e = r.swap_extent;
    lemma_begin_picture(e);
    lemma_end_picture();
    lemma_parts_picture(r, alive, quads);
    lemma_picture_parts(
        frame::volume_source(r),
        frame::particle_work(r),
        frame::begin_work(e),
        frame::volume_draw(r),
        frame::billboard_draw(r),
        frame::wave_draw(r, alive),
        frame::text_draw(e, quads),
        frame::end_work(),
    );
}

proof fn lemma_end_picture()
    ensures
        picture_of(frame::end_work()) == seq![Command::EndRendering],
{
    let c8 = frame::end_work();
    let none = Seq::<Command>::empty();
    let t1 = none.push(c8[0]);
    let t2 = t1.push(c8[1]);
    assert(c8 =~= t2);
    assert(t2.drop_last() =~= t1);
    assert(t1.drop_last() =~= none);
    assert(picture_of(none) =~= none);
    assert(t1.last() == Command::EndRendering);
    assert(picture_of(t1) == none.push(Command::EndRendering));
    assert(picture_of(t2) == picture_of(t1));
    assert(none.push(Command::EndRendering) =~= seq![Command::EndRendering]);
}

/// Whether a list holds at most one command, a draw.
spec fn draws_once(cs: Seq<Command>) -> bool {
    cs.len() == 0 || cs.len() == 1 && (cs[0] is Draw || cs[0] is DrawIndexed)
}

proof fn lemma_parts_picture(r: RendererModel, alive: nat, quads: nat)
    ensures
        picture_of(frame::volume_source(r)) == Seq::<Command>::empty(),
        picture_of(frame::particle_work(r)) == Seq::<Command>::empty(),
        draws_once(picture_of(frame::volume_draw(r))),
        draws_once(picture_of(frame::billboard_draw(r))),
        draws_once(picture_of(frame::wave_draw(r, alive))),
        draws_once(picture_of(frame::text_draw(r.swap_extent, quads))),
{
    lemma_no_picture(frame::volume_source(r));
    lemma_no_picture(frame::particle_work(r));
    if frame::volume_draw(r).len() > 0 {
        lemma_one_draw(frame::volume_draw(r));
    }
    if frame::billboard_draw(r).len() > 0 {
        lemma_one_draw(frame::billboard_draw(r));
    }
    if frame::wave_draw(r, alive).len() > 0 {
        lemma_one_draw(frame::wave_draw(r, alive));
    }
    if frame::text_draw(r.swap_extent, quads).len() > 0 {
        lemma_one_draw(frame::text_draw(r.swap_extent, quads));
    }
}

proof fn lemma_picture_parts(
    c1: Seq<Command>,
    c2: Seq<Command>,
    c3: Seq<Command>,
    c4: Seq<Command>,
    c5: Seq<Command>,
    c6: Seq<Command>,
    c7: Seq<Command>,
    c8: Seq<Command>,
)
    requires
        picture_of(c1) == Seq::<Command>::empty(),
        picture_of(c2) == Seq::<Command>::empty(),
        picture_of(c3).len() == 3,
        draws_once(picture_of(c4)),
        draws_once(picture_of(c5)),
        draws_once(picture_of(c6)),
        draws_once(picture_of(c7)),
        picture_of(c8) == seq![Command::EndRendering],
    ensures
        ({
            let all = picture_of(c1 + c2 + c3 + c4 + c5 + c6 + c7 + c8);
            let n = all.len() as int;
            &&& n >= 4
            &&& all[0] == picture_of(c3)[0]
            &&& all[1] == picture_of(c3)[1]
            &&& all[2] == picture_of(c3)[2]
            &&& all[n - 1] == Command::EndRendering
            &&& forall|i: int|
                3 <= i < n - 1 ==> (#[trigger] all[i]) is Draw || all[i] is DrawIndexed
        }),
{
    lemma_picture_concat(c1, c2);
    lemma_picture_concat(c1 + c2, c3);
    lemma_picture_concat(c1 + c2 + c3, c4);
    lemma_picture_concat(c1 + c2 + c3 + c4, c5);
    lemma_picture_concat(c1 + c2 + c3 + c4 + c5, c6);
    lemma_picture_concat(c1 + c2 + c3 + c4 + c5 + c6, c7);
    lemma_picture_concat(c1 + c2 + c3 + c4 + c5 + c6 + c7, c8);
    let all = picture_of(c1 + c2 + c3 + c4 + c5 + c6 + c7 + c8);
    let p3 = picture_of(c3);
    let middle = picture_of(c4) + picture_of(c5) + picture_of(c6) + picture_of(c7);
    assert(forall|i: int|
        0 <= i < middle.len() ==> (#[trigger] middle[i]) is Draw || middle[i] is DrawIndexed);
    assert(all =~= p3 + middle + seq![Command::EndRendering]);
    assert forall|i: int| 3 <= i < all.len() - 1 implies (#[trigger] all[i]) is Draw
        || all[i] is DrawIndexed by {
        assert(all[i] == middle[i - 3]);
    }
}

/// Whether a command that orders work does so as the images are used: what is going to be
/// written by compute shaders was read by fragment and compute shaders before, what they
/// wrote is read by shaders after, the particles are read by the vertex shader, and the
/// image that is shown is written as a color attachment before it goes to the screen.
pub open spec fn orders_work(c: Command) -> bool {
    match c {
        Command::Image(b) => if b.new_layout == LAYOUT_GENERAL {
            &&& b.src_access == ACCESS_SHADER_READ
            &&& b.src_stage == STAGE_FRAGMENT_AND_COMPUTE
            &&& b.dst_access == ACCESS_SHADER_WRITE
            &&& b.dst_stage == STAGE_COMPUTE_SHADER
        } else if b.old_layout == LAYOUT_GENERAL {
            &&& b.src_access == ACCESS_SHADER_WRITE
            &&& b.src_stage == STAGE_COMPUTE_SHADER
            &&& b.dst_access == ACCESS_SHADER_READ
            &&& b.dst_stage == (match b.image {
                Target::Named(ImageName::PsiMax(_)) => STAGE_FRAGMENT_AND_COMPUTE,
                _ => STAGE_COMPUTE_SHADER,
            })
        } else if b.new_layout == LAYOUT_COLOR_ATTACHMENT {
            &&& b.dst_access == ACCESS_COLOR_ATTACHMENT_WRITE
            &&& b.dst_stage == STAGE_COLOR_ATTACHMENT_OUTPUT
        } else if b.new_layout == LAYOUT_PRESENT_SRC {
            &&& b.src_access == ACCESS_COLOR_ATTACHMENT_WRITE
            &&& b.src_stage == STAGE_COLOR_ATTACHMENT_OUTPUT
        } else if b.dst_access == ACCESS_NONE {
            &&& b.src_family != b.dst_family ==> b.src_access == ACCESS_SHADER_WRITE && b.src_stage
                == STAGE_COMPUTE_SHADER
        } else {
            &&& b.dst_access == ACCESS_SHADER_READ
            &&& b.dst_stage == STAGE_FRAGMENT_AND_COMPUTE
        },
        Command::Particles(b) => {
            &&& b.src_access == ACCESS_SHADER_WRITE
            &&& b.src_stage == STAGE_COMPUTE_SHADER
            &&& b.dst_access == ACCESS_SHADER_READ
            &&& b.dst_stage == STAGE_VERTEX_SHADER
        },
        _ => true,
    }
}

/// Whether this holds of all commands.
pub open spec fn all_order_work(cs: Seq<Command>) -> bool {
    forall|i: int| 0 <= i < cs.len() ==> orders_work(#[trigger] cs[i])
}

proof fn lemma_order_concat(a: Seq<Command>, b: Seq<Command>)
    requires
        all_order_work(a),
        all_order_work(b),
    ensures
        all_order_work(a + b),
{
    assert forall|i: int| 0 <= i < (a + b).len() implies orders_work(#[trigger] (a + b)[i]) by {
        if i < a.len() {
            assert((a + b)[i] == a[i]);
        } else {
            assert((a + b)[i] == b[i - a.len()]);
        }
    }
}

/// Every barrier of a frame, on either queue, orders the work as the images and the
/// particles are used.
pub proof fn law_barriers_order_the_work(
    r: RendererModel,
    image: u32,
    steps: Seq<WaveStep>,
    fps: Seq<char>,
)
    ensures
        ({
            let p = frame::frame_plan(r, image, steps, fps);
            &&& all_order_work(p.commands)
            &&& p.async_work matches Some((work, signal)) ==> all_order_work(work)
        }),
{
    let p = frame::frame_plan(r, image, steps, fps);
    let alive = frame::frame_done(r, steps).waves.len();
    let quads = p.text.len();
    let slot = r.frame_index;
    let init = r.initialized[slot as int];
    let e = r.swap_extent;
    assert(all_order_work(commands::volume_work(slot, init)));
    assert(all_order_work(commands::release_work(slot, frame::handover(r))));
    assert(all_order_work(commands::release_work(slot, None)));
    lemma_order_concat(
        commands::volume_work(slot, init),
        commands::release_work(slot, frame::handover(r)),
    );
    lemma_order_concat(commands::volume_work(slot, init), commands::release_work(slot, None));
    let c1 = frame::volume_source(r);
    assert(all_order_work(c1));
    let c2 = frame::particle_work(r);
    assert(all_order_work(c2));
    lemma_order_concat(c1, c2);
    let c3 = frame::begin_work(e);
    assert(all_order_work(c3));
    lemma_order_concat(c1 + c2, c3);
    let c4 = frame::volume_draw(r);
    assert(all_order_work(c4));
    lemma_order_concat(c1 + c2 + c3, c4);
    let c5 = frame::billboard_draw(r);
    assert(all_order_work(c5));
    lemma_order_concat(c1 + c2 + c3 + c4, c5);
    let c6 = frame::wave_draw(r, alive);
    assert(all_order_work(c6));
    lemma_order_concat(c1 + c2 + c3 + c4 + c5, c6);
    let c7 = frame::text_draw(e, quads);
    assert(all_order_work(c7));
    lemma_order_concat(c1 + c2 + c3 + c4 + c5 + c6, c7);
    let c8 = frame::end_work();
    assert(all_order_work(c8));
    lemma_order_concat(c1 + c2 + c3 + c4 + c5 + c6 + c7, c8);
}

/// Whether a command leaves an image with its owner, or hands an image of the slot over
/// between the given families while it is ready to be read; the image that is shown comes
/// from nowhere and goes to the screen.
pub open spec fn keeps_owner(c: Command, slot: usize, families: Option<(u32, u32)>) -> bool {
    match c {
        Command::Image(b) => {
            let own = b.image == Target::Named(ImageName::Volume(slot)) || b.image == Target::Named(
                ImageName::PsiMax(slot),
            );
            &&& {
                ||| b.src_family == 0xFFFF_FFFF && b.dst_family == 0xFFFF_FFFF && (own || b.image
                    is Swap)
                ||| families == Some((b.src_family, b.dst_family)) && own && b.old_layout == 5
                    && b.new_layout == 5
            }
            &&& b.image is Swap && b.new_layout == 2 ==> b.old_layout == 0 && b.src_access == 0
                && b.src_stage == 0x1
            &&& b.image is Swap && b.new_layout != 2 ==> b.old_layout == 2 && b.new_layout
                == 1_000_001_002 && b.dst_access == 0 && b.dst_stage == 0x2000
        },
        _ => true,
    }
}

/// Whether this holds of all commands.
pub open spec fn all_keep_owner(
    cs: Seq<Command>,
    slot: usize,
    families: Option<(u32, u32)>,
) -> bool {
    forall|i: int| 0 <= i < cs.len() ==> keeps_owner(#[trigger] cs[i], slot, families)
}

/// Whether the shell's shape is bound right before it is drawn, wherever it is.
pub open spec fn shape_is_bound(cs: Seq<Command>) -> bool {
    forall|i: int|
        0 <= i < cs.len() && (#[trigger] cs[i]) is DrawIndexed ==> i > 0 && cs[i - 1] is WaveBuffers
}

proof fn lemma_owner_concat(
    a: Seq<Command>,
    b: Seq<Command>,
    slot: usize,
    families: Option<(u32, u32)>,
)
    requires
        all_keep_owner(a, slot, families),
        all_keep_owner(b, slot, families),
        shape_is_bound(a),
        shape_is_bound(b),
    ensures
        all_keep_owner(a + b, slot, families),
        shape_is_bound(a + b),
{
    let c = a + b;
    assert forall|i: int| 0 <= i < c.len() implies keeps_owner(#[trigger] c[i], slot, families) by {
        if i < a.len() {
            assert(c[i] == a[i]);
        } else {
            assert(c[i] == b[i - a.len()]);
        }
    }
    assert forall|i: int| 0 <= i < c.len() && (#[trigger] c[i]) is DrawIndexed implies i > 0 && c[i
        - 1] is WaveBuffers by {
        if i < a.len() {
            assert(c[i] == a[i]);
            assert(c[i - 1] == a[i - 1]);
        } else {
            assert(c[i] == b[i - a.len()]);
            assert(c[i - 1] == b[i - 1 - a.len()]);
        }
    }
}

/// The commands of a frame, on either queue, leave every image with its owner, but that the
/// volume and its maximum go from the second queue's family to the one that draws where the
/// two differ. Wherever the shells are drawn, their shape was bound right before.
pub proof fn law_images_have_one_owner(
    r: RendererModel,
    image: u32,
    steps: Seq<WaveStep>,
    fps: Seq<char>,
)
    ensures
        ({
            let p = frame::frame_plan(r, image, steps, fps);
            let g = r.caps.graphics_family;
            let families = match r.caps.async_compute_family {
                Some(f) => if r.perf_async && f != g {
                    Some((f, g))
                } else {
                    None
                },
                None => None,
            };
            &&& all_keep_owner(p.commands, p.slot, families)
            &&& shape_is_bound(p.commands)
            &&& p.async_work matches Some((work, signal)) ==> all_keep_owner(work, p.slot, families)
        }),
{
    let p = frame::frame_plan(r, image, steps, fps);
    let alive = frame::frame_done(r, steps).waves.len();
    let quads = p.text.len();
    let slot = r.frame_index;
    let init = r.initialized[slot as int];
    let e = r.swap_extent;
    let to = frame::handover(r);
    assert(all_keep_owner(commands::volume_work(slot, init), slot, to));
    assert(all_keep_owner(commands::release_work(slot, to), slot, to));
    assert(all_keep_owner(commands::release_work(slot, None), slot, to));
    lemma_owner_concat(
        commands::volume_work(slot, init),
        commands::release_work(slot, to),
        slot,
        to,
    );
    lemma_owner_concat(
        commands::volume_work(slot, init),
        commands::release_work(slot, None),
        slot,
        to,
    );
    let c1 = frame::volume_source(r);
    assert(all_keep_owner(c1, slot, to) && shape_is_bound(c1));
    let c2 = frame::particle_work(r);
    assert(all_keep_owner(c2, slot, to) && shape_is_bound(c2));
    lemma_owner_concat(c1, c2, slot, to);
    let c3 = frame::begin_work(e);
    assert(all_keep_owner(c3, slot, to) && shape_is_bound(c3));
    lemma_owner_concat(c1 + c2, c3, slot, to);
    let c4 = frame::volume_draw(r);
    assert(all_keep_owner(c4, slot, to) && shape_is_bound(c4));
    lemma_owner_concat(c1 + c2 + c3, c4, slot, to);
    let c5 = frame::billboard_draw(r);
    assert(all_keep_owner(c5, slot, to) && shape_is_bound(c5));
    lemma_owner_concat(c1 + c2 + c3 + c4, c5, slot, to);
    let c6 = frame::wave_draw(r, alive);
    assert(all_keep_owner(c6, slot, to) && shape_is_bound(c6));
    lemma_owner_concat(c1 + c2 + c3 + c4 + c5, c6, slot, to);
    let c7 = frame::text_draw(e, quads);
    assert(all_keep_owner(c7, slot, to) && shape_is_bound(c7));
    lemma_owner_concat(c1 + c2 + c3 + c4 + c5 + c6, c7, slot, to);
    let c8 = frame::end_work();
    assert(all_keep_owner(c8, slot, to) && shape_is_bound(c8));
    lemma_owner_concat(c1 + c2 + c3 + c4 + c5 + c6 + c7, c8, slot, to);
}

} // verus!
