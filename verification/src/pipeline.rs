//! How the pipelines are made: the shaders of each pass, and how what it draws is
//! rasterized and blended.

use crate::floats::ONE_BITS;
use crate::numbers::{
    BLEND_ONE, BLEND_ONE_MINUS_SRC_ALPHA, BLEND_OP_ADD, BLEND_SRC_ALPHA, COMPONENTS_RGBA, CULL_NONE,
    DYNAMIC_SCISSOR, DYNAMIC_VIEWPORT, FORMAT_R32G32B32_SFLOAT, FRONT_COUNTER_CLOCKWISE,
    INPUT_RATE_VERTEX, POLYGON_FILL, POLYGON_LINE, SAMPLES_ONE, TOPOLOGY_TRIANGLE_LIST,
};
use crate::resources;
use crate::resources::{BufferName, Pass, WAVE_VERTEX_COUNT};
use vstd::prelude::*;

verus! {

/// The bytes from one vertex of the wave shell to the next.
pub const WAVE_VERTEX_STRIDE: u32 = 12;

/// How a color that is drawn mixes with the one that is there.
#[derive(Clone, Copy, PartialEq, Eq, Debug, Structural)]
pub struct Blend {
    pub src_color: i32,
    pub dst_color: i32,
    pub color_op: i32,
    pub src_alpha: i32,
    pub dst_alpha: i32,
    pub alpha_op: i32,
}

/// Where a vertex shader finds its vertices.
#[derive(Clone, Copy, PartialEq, Eq, Debug, Structural)]
pub struct VertexInput {
    pub binding: u32,
    pub stride: u32,
    pub input_rate: i32,
    pub location: u32,
    pub format: i32,
    pub offset: u32,
}

/// What commands set before a pipeline draws.
#[derive(Clone, Copy, PartialEq, Eq, Debug, Structural)]
pub struct DynamicStates {
    pub first: i32,
    pub second: i32,
}

/// How a pipeline that draws is made.
#[derive(Clone, Copy, PartialEq, Eq, Debug, Structural)]
pub struct PipelineSpec {
    pub vertex_input: Option<VertexInput>,
    pub topology: i32,
    pub viewport_count: u32,
    pub scissor_count: u32,
    pub polygon_mode: i32,
    pub cull_mode: u32,
    pub front_face: i32,
    /// The width of lines in pixels, as the bit pattern of a float.
    pub line_width: u32,
    pub samples: u32,
    pub write_mask: u32,
    /// Where there is none, what is drawn covers what is there.
    pub blend: Option<Blend>,
    pub dynamic_states: DynamicStates,
}

/// A pipeline that draws triangles, seen from both sides, into all components of a color,
/// in the viewport and the scissor rectangle that commands set.
pub open spec fn drawn(
    vertex_input: Option<VertexInput>,
    polygon_mode: i32,
    blend: Option<Blend>,
) -> PipelineSpec {
    PipelineSpec {
        vertex_input,
        topology: TOPOLOGY_TRIANGLE_LIST,
        viewport_count: 1,
        scissor_count: 1,
        polygon_mode,
        cull_mode: CULL_NONE,
        front_face: FRONT_COUNTER_CLOCKWISE,
        line_width: ONE_BITS,
        samples: SAMPLES_ONE,
        write_mask: COMPONENTS_RGBA,
        blend,
        dynamic_states: DynamicStates { first: DYNAMIC_VIEWPORT, second: DYNAMIC_SCISSOR },
    }
}

/// A mix that adds the drawn color and the one that is there, each by its factor.
pub open spec fn sum_of(src_color: i32, dst_color: i32, src_alpha: i32, dst_alpha: i32) -> Blend {
    Blend {
        src_color,
        dst_color,
        color_op: BLEND_OP_ADD,
        src_alpha,
        dst_alpha,
        alpha_op: BLEND_OP_ADD,
    }
}

/// How the pipeline of a pass is made; a pass that computes has none of this. Only the
/// shells have vertices; the other shapes are made up by the vertex shader.
pub open spec fn pipeline_of(pass: Pass) -> Option<PipelineSpec> {
    match pass {
        Pass::Raymarch => Some(drawn(None, POLYGON_FILL, None)),
        Pass::Heatmap => Some(drawn(None, POLYGON_FILL, None)),
        Pass::Billboards => Some(
            drawn(None, POLYGON_FILL, Some(sum_of(BLEND_ONE, BLEND_ONE, BLEND_ONE, BLEND_ONE))),
        ),
        Pass::Waves => Some(
            drawn(
                Some(
                    VertexInput {
                        binding: 0,
                        stride: WAVE_VERTEX_STRIDE,
                        input_rate: INPUT_RATE_VERTEX,
                        location: 0,
                        format: FORMAT_R32G32B32_SFLOAT,
                        offset: 0,
                    },
                ),
                POLYGON_LINE,
                Some(sum_of(BLEND_SRC_ALPHA, BLEND_ONE, BLEND_ONE, BLEND_ONE)),
            ),
        ),
        Pass::Text => Some(
            drawn(
                None,
                POLYGON_FILL,
                Some(
                    sum_of(
                        BLEND_SRC_ALPHA,
                        BLEND_ONE_MINUS_SRC_ALPHA,
                        BLEND_ONE,
                        BLEND_ONE_MINUS_SRC_ALPHA,
                    ),
                ),
            ),
        ),
        _ => None,
    }
}

/// The files that hold the shaders of a pass: the compute shader, or the vertex and the
/// fragment shader.
pub open spec fn shader_files_of(pass: Pass) -> Seq<Seq<char>> {
    match pass {
        Pass::Wavefunction => seq!["wavefunction.comp.spv"@],
        Pass::Mipmap => seq!["mipmap.comp.spv"@],
        Pass::Particles => seq!["particles.comp.spv"@],
        Pass::Raymarch => seq!["raymarch.vert.spv"@, "raymarch.frag.spv"@],
        Pass::Heatmap => seq!["heatmap.vert.spv"@, "heatmap.frag.spv"@],
        Pass::Billboards => seq!["particles.vert.spv"@, "particles.frag.spv"@],
        Pass::Waves => seq!["waves.vert.spv"@, "waves.frag.spv"@],
        Pass::Text => seq!["text.vert.spv"@, "text.frag.spv"@],
    }
}

fn drawing(
    vertex_input: Option<VertexInput>,
    polygon_mode: i32,
    blend: Option<Blend>,
) -> (spec: PipelineSpec)
    ensures
        spec == drawn(vertex_input, polygon_mode, blend),
{
    PipelineSpec {
        vertex_input,
        topology: TOPOLOGY_TRIANGLE_LIST,
        viewport_count: 1,
        scissor_count: 1,
        polygon_mode,
        cull_mode: CULL_NONE,
        front_face: FRONT_COUNTER_CLOCKWISE,
        line_width: ONE_BITS,
        samples: SAMPLES_ONE,
        write_mask: COMPONENTS_RGBA,
        blend,
        dynamic_states: DynamicStates { first: DYNAMIC_VIEWPORT, second: DYNAMIC_SCISSOR },
    }
}

fn blend_sum(src_color: i32, dst_color: i32, src_alpha: i32, dst_alpha: i32) -> (blend: Blend)
    ensures
        blend == sum_of(src_color, dst_color, src_alpha, dst_alpha),
{
    Blend {
        src_color,
        dst_color,
        color_op: BLEND_OP_ADD,
        src_alpha,
        dst_alpha,
        alpha_op: BLEND_OP_ADD,
    }
}

/// The volume and the heatmap fill the screen and cover it.
pub fn create_graphics_pipeline() -> (spec: PipelineSpec)
    ensures
        Some(spec) == pipeline_of(Pass::Raymarch),
        Some(spec) == pipeline_of(Pass::Heatmap),
{
    drawing(None, POLYGON_FILL, None)
}

/// The particles' light adds up.
pub fn create_particle_pipeline() -> (spec: PipelineSpec)
    ensures
        Some(spec) == pipeline_of(Pass::Billboards),
{
    drawing(None, POLYGON_FILL, Some(blend_sum(BLEND_ONE, BLEND_ONE, BLEND_ONE, BLEND_ONE)))
}

/// The shells are drawn as lines whose light adds up.
pub fn create_wave_pipeline() -> (spec: PipelineSpec)
    ensures
        Some(spec) == pipeline_of(Pass::Waves),
{
    let input = VertexInput {
        binding: 0,
        stride: WAVE_VERTEX_STRIDE,
        input_rate: INPUT_RATE_VERTEX,
        location: 0,
        format: FORMAT_R32G32B32_SFLOAT,
        offset: 0,
    };
    let blend = blend_sum(BLEND_SRC_ALPHA, BLEND_ONE, BLEND_ONE, BLEND_ONE);
    drawing(Some(input), POLYGON_LINE, Some(blend))
}

/// The text covers what is there as far as it is opaque.
pub fn create_text_pipeline() -> (spec: PipelineSpec)
    ensures
        Some(spec) == pipeline_of(Pass::Text),
{
    let blend = blend_sum(
        BLEND_SRC_ALPHA,
        BLEND_ONE_MINUS_SRC_ALPHA,
        BLEND_ONE,
        BLEND_ONE_MINUS_SRC_ALPHA,
    );
    drawing(None, POLYGON_FILL, Some(blend))
}

/// How the pipeline of a pass is made.
pub fn pipeline_spec(pass: Pass) -> (spec: Option<PipelineSpec>)
    ensures
        spec == pipeline_of(pass),
{
    match pass {
        Pass::Raymarch => Some(create_graphics_pipeline()),
        Pass::Heatmap => Some(create_graphics_pipeline()),
        Pass::Billboards => Some(create_particle_pipeline()),
        Pass::Waves => Some(create_wave_pipeline()),
        Pass::Text => Some(create_text_pipeline()),
        _ => None,
    }
}

/// The files that hold the shaders of a pass.
pub fn shader_files(pass: Pass) -> (files: Vec<&'static str>)
    ensures
        files@.map_values(|f: &'static str| f@) == shader_files_of(pass),
{
    let files: Vec<&'static str> = match pass {
        Pass::Wavefunction => vec!["wavefunction.comp.spv"],
        Pass::Mipmap => vec!["mipmap.comp.spv"],
        Pass::Particles => vec!["particles.comp.spv"],
        Pass::Raymarch => vec!["raymarch.vert.spv", "raymarch.frag.spv"],
        Pass::Heatmap => vec!["heatmap.vert.spv", "heatmap.frag.spv"],
        Pass::Billboards => vec!["particles.vert.spv", "particles.frag.spv"],
        Pass::Waves => vec!["waves.vert.spv", "waves.frag.spv"],
        Pass::Text => vec!["text.vert.spv", "text.frag.spv"],
    };
    assert(files@.map_values(|f: &'static str| f@) =~= shader_files_of(pass));
    files
}

/// A pass has a pipeline that draws exactly if it does not compute, and one shader file
/// if it computes, else two.
pub proof fn law_passes_draw_or_compute(pass: Pass)
    ensures
        pipeline_of(pass) is Some <==> !resources::computes(pass),
        shader_files_of(pass).len() == (if resources::computes(pass) {
            1int
        } else {
            2
        }),
{
}

/// The vertex buffer of the wave shell holds exactly its vertices, one stride each.
pub proof fn law_wave_vertices_fill_their_buffer()
    ensures
        pipeline_of(Pass::Waves) matches Some(spec) && spec.vertex_input matches Some(input)
            && resources::buffer_spec_of(BufferName::WaveVertices).size == input.stride
            * WAVE_VERTEX_COUNT,
{
    resources::law_wave_shell_counts();
}

/// Every pass that draws draws triangles from both sides, one sample to a pixel, with all
/// four components of a color, in the one viewport and scissor rectangle that commands set.
pub proof fn law_passes_draw_triangles(pass: Pass)
    ensures
        pipeline_of(pass) matches Some(spec) ==> {
            &&& spec.topology == 3 && spec.cull_mode == 0 && spec.samples == 1
            &&& spec.write_mask == 1 + 2 + 4 + 8
            &&& spec.viewport_count == 1 && spec.scissor_count == 1
            &&& spec.dynamic_states.first == 0 && spec.dynamic_states.second == 1
            &&& spec.line_width == ONE_BITS && spec.front_face == 0
        },
{
}

/// The volume and the heatmap cover what is there. Particles and shells add their light to
/// it, the shells as far as they are opaque. Text mixes by how opaque it is, so that the
/// two weights are a whole. The shells alone are drawn as lines, and have vertices: three
/// floats each, one after another.
pub proof fn law_passes_mix_their_colors()
    ensures
        ({
            let volume = pipeline_of(Pass::Raymarch).unwrap();
            let dots = pipeline_of(Pass::Billboards).unwrap();
            let shells = pipeline_of(Pass::Waves).unwrap();
            let input = shells.vertex_input.unwrap();
            let text = pipeline_of(Pass::Text).unwrap();
            &&& pipeline_of(Pass::Raymarch) is Some
            &&& volume.blend is None && volume.polygon_mode == 0 && volume.vertex_input is None
            &&& pipeline_of(Pass::Heatmap) == pipeline_of(Pass::Raymarch)
            &&& pipeline_of(Pass::Billboards) is Some
            &&& dots.polygon_mode == 0 && dots.vertex_input is None
            &&& dots.blend is Some && adds(dots.blend.unwrap(), 1, 1, 1, 1)
            &&& pipeline_of(Pass::Waves) is Some
            &&& shells.polygon_mode == 1
            &&& shells.blend is Some && adds(shells.blend.unwrap(), 6, 1, 1, 1)
            &&& shells.vertex_input is Some
            &&& input.binding == 0 && input.location == 0 && input.offset == 0
            &&& input.stride == 3 * 4 && input.format == 106 && input.input_rate == 0
            &&& pipeline_of(Pass::Text) is Some
            &&& text.polygon_mode == 0 && text.vertex_input is None
            &&& text.blend is Some && adds(text.blend.unwrap(), 6, 7, 1, 7)
        }),
{
}

/// Whether a mix adds up what is drawn and what is there, by the given factors: those of
/// the colors, then those of the alphas.
pub open spec fn adds(mix: Blend, src: int, dst: int, src_alpha: int, dst_alpha: int) -> bool {
    &&& mix.color_op == 0 && mix.alpha_op == 0
    &&& mix.src_color == src && mix.dst_color == dst
    &&& mix.src_alpha == src_alpha && mix.dst_alpha == dst_alpha
}

/// The name of the shaders of a pass. The particles are drawn and moved under one name.
pub open spec fn stem_of(pass: Pass) -> Seq<char> {
    match pass {
        Pass::Wavefunction => "wavefunction"@,
        Pass::Mipmap => "mipmap"@,
        Pass::Particles => "particles"@,
        Pass::Raymarch => "raymarch"@,
        Pass::Heatmap => "heatmap"@,
        Pass::Billboards => "particles"@,
        Pass::Waves => "waves"@,
        Pass::Text => "text"@,
    }
}

/// The shaders of a pass lie in files of its name: the compute shader of one that computes,
/// the vertex and then the fragment shader of one that draws.
pub proof fn law_shader_files_have_their_names(pass: Pass)
    ensures
        resources::computes(pass) ==> shader_files_of(pass) == seq![
            stem_of(pass) + ".comp.spv"@,
        ],
        !resources::computes(pass) ==> shader_files_of(pass) == seq![
            stem_of(pass) + ".vert.spv"@,
            stem_of(pass) + ".frag.spv"@,
        ],
{
    reveal_strlit(".comp.spv");
    reveal_strlit(".vert.spv");
    reveal_strlit(".frag.spv");
    match pass {
        Pass::Wavefunction => {
            reveal_strlit("wavefunction");
            reveal_strlit("wavefunction.comp.spv");
            assert("wavefunction"@ + ".comp.spv"@ =~= "wavefunction.comp.spv"@);
        },
        Pass::Mipmap => {
            reveal_strlit("mipmap");
            reveal_strlit("mipmap.comp.spv");
            assert("mipmap"@ + ".comp.spv"@ =~= "mipmap.comp.spv"@);
        },
        Pass::Particles => {
            reveal_strlit("particles");
            reveal_strlit("particles.comp.spv");
            assert("particles"@ + ".comp.spv"@ =~= "particles.comp.spv"@);
        },
        Pass::Raymarch => {
            reveal_strlit("raymarch");
            reveal_strlit("raymarch.vert.spv");
            reveal_strlit("raymarch.frag.spv");
            assert("raymarch"@ + ".vert.spv"@ =~= "raymarch.vert.spv"@);
            assert("raymarch"@ + ".frag.spv"@ =~= "raymarch.frag.spv"@);
        },
        Pass::Heatmap => {
            reveal_strlit("heatmap");
            reveal_strlit("heatmap.vert.spv");
            reveal_strlit("heatmap.frag.spv");
            assert("heatmap"@ + ".vert.spv"@ =~= "heatmap.vert.spv"@);
            assert("heatmap"@ + ".frag.spv"@ =~= "heatmap.frag.spv"@);
        },
        Pass::Billboards => {
            reveal_strlit("particles");
            reveal_strlit("particles.vert.spv");
            reveal_strlit("particles.frag.spv");
            assert("particles"@ + ".vert.spv"@ =~= "particles.vert.spv"@);
            assert("particles"@ + ".frag.spv"@ =~= "particles.frag.spv"@);
        },
        Pass::Waves => {
            reveal_strlit("waves");
            reveal_strlit("waves.vert.spv");
            reveal_strlit("waves.frag.spv");
            assert("waves"@ + ".vert.spv"@ =~= "waves.vert.spv"@);
            assert("waves"@ + ".frag.spv"@ =~= "waves.frag.spv"@);
        },
        Pass::Text => {
            reveal_strlit("text");
            reveal_strlit("text.vert.spv");
            reveal_strlit("text.frag.spv");
            assert("text"@ + ".vert.spv"@ =~= "text.vert.spv"@);
            assert("text"@ + ".frag.spv"@ =~= "text.frag.spv"@);
        },
    }
}

} // verus!
