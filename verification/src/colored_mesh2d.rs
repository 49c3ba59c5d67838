//! The decisions of the colored 2D mesh render pass: which pipeline a key
//! asks for, which visible meshes are queued under which key, and which
//! entities are extracted into the render world.

use vstd::prelude::*;
use crate::mesh2d_key::{
    Topology, msaa_key_bits, hdr_key_bits, topology_key_bits, key_msaa_samples, key_topology,
    key_has_hdr, is_encodable_sample_count, from_msaa_samples, from_hdr, from_primitive_topology,
    msaa_samples, primitive_topology, contains_hdr, lemma_msaa_round_trip,
    lemma_topology_round_trip,
};
use vstd::std_specs::bits::u32_trailing_zeros;

verus! {

/// The format of one vertex attribute in the vertex buffer.
#[derive(Clone, Copy, Debug, PartialEq, Eq, Structural)]
pub enum VertexFormat {
    /// A position: three 32-bit floats.
    Float32x3,
    /// A packed RGBA color: one 32-bit unsigned integer.
    Uint32,
}

/// The texture format that the pipeline renders into.
#[derive(Clone, Copy, Debug, PartialEq, Eq, Structural)]
pub enum TargetFormat {
    Rgba8Unorm,
}

/// Which way round a front-facing triangle is wound.
#[derive(Clone, Copy, Debug, PartialEq, Eq, Structural)]
pub enum FrontFace {
    /// Counter-clockwise.
    Ccw,
}

/// A side of a triangle that can be culled.
#[derive(Clone, Copy, Debug, PartialEq, Eq, Structural)]
pub enum CullFace {
    Back,
}

/// How polygons are rasterized.
#[derive(Clone, Copy, Debug, PartialEq, Eq, Structural)]
pub enum PolygonMode {
    Fill,
}

/// The depth test applied to fragments.
#[derive(Clone, Copy, Debug, PartialEq, Eq, Structural)]
pub enum DepthCompare {
    GreaterEqual,
}

/// The depth buffer format of the 2D core pass.
#[derive(Clone, Copy, Debug, PartialEq, Eq, Structural)]
pub enum DepthFormat {
    /// The depth format that the 2D core pass renders with.
    Core2d,
}

/// How a fragment's color is blended into the target.
#[derive(Clone, Copy, Debug, PartialEq, Eq, Structural)]
pub enum Blend {
    /// Standard alpha blending.
    AlphaBlending,
}

/// How the stencil test treats a face.
#[derive(Clone, Copy, Debug, PartialEq, Eq, Structural)]
pub enum StencilFace {
    /// The stencil test always passes and leaves the stencil unchanged.
    Ignore,
}

/// A bind group layout the pipeline binds, by what it holds.
#[derive(Clone, Copy, Debug, PartialEq, Eq, Structural)]
pub enum BindGroupLayout {
    /// The view uniform.
    View,
    /// The mesh uniform.
    Mesh,
}

/// A shader module a pipeline stage runs.
#[derive(Clone, Copy, Debug, PartialEq, Eq, Structural)]
pub enum ShaderModule {
    /// The colored-mesh pipeline's own shader.
    ColoredMesh,
}

/// The settings of the colored-mesh pipeline that no key changes.
#[derive(Debug)]
pub struct FixedPipelineState {
    /// The shader module of the vertex stage.
    pub vertex_shader: ShaderModule,
    /// The shader module of the fragment stage.
    pub fragment_shader: ShaderModule,
    /// The shader entry point for vertices.
    pub vertex_entry_point: &'static str,
    /// The shader entry point for fragments.
    pub fragment_entry_point: &'static str,
    /// The shader definitions of the vertex stage.
    pub vertex_shader_defs: Vec<&'static str>,
    /// The shader definitions of the fragment stage.
    pub fragment_shader_defs: Vec<&'static str>,
    /// The bind group layouts, in bind group order.
    pub bind_group_layouts: Vec<BindGroupLayout>,
    /// Whether the pipeline takes push constants.
    pub push_constants: bool,
    pub front_face: FrontFace,
    /// The face culled, if any.
    pub cull_mode: Option<CullFace>,
    pub unclipped_depth: bool,
    pub polygon_mode: PolygonMode,
    pub conservative: bool,
    /// Whether strip primitives take an index format (`false`: none is set).
    pub strip_index_format: bool,
    pub depth_format: DepthFormat,
    pub depth_write_enabled: bool,
    pub depth_compare: DepthCompare,
    pub stencil_front: StencilFace,
    pub stencil_back: StencilFace,
    pub stencil_read_mask: u32,
    pub stencil_write_mask: u32,
    /// The constant depth bias.
    pub depth_bias_constant: i32,
    pub blend: Blend,
    /// Whether all color channels are written.
    pub write_all_channels: bool,
    /// The mask of samples that are written.
    pub sample_mask: u64,
    pub alpha_to_coverage_enabled: bool,
    /// The pipeline's debug label.
    pub label: &'static str,
}

/// The bind group order: the view uniform, then the mesh uniform.
pub open spec fn colored_bind_group_layouts() -> Seq<BindGroupLayout> {
    seq![BindGroupLayout::View, BindGroupLayout::Mesh]
}

/// What the fixed settings of the colored-mesh pipeline are.
pub open spec fn is_colored_pipeline_state(s: FixedPipelineState) -> bool {
    &&& s.vertex_shader == ShaderModule::ColoredMesh
    &&& s.fragment_shader == s.vertex_shader
    &&& s.vertex_shader_defs@.len() == 0
    &&& s.fragment_shader_defs@.len() == 0
    &&& s.vertex_entry_point@ == "vertex"@
    &&& s.fragment_entry_point@ == "fragment"@
    &&& s.bind_group_layouts@ == colored_bind_group_layouts()
    &&& !s.push_constants
    &&& s.front_face == FrontFace::Ccw
    &&& s.cull_mode == Some(CullFace::Back)
    &&& !s.unclipped_depth
    &&& s.polygon_mode == PolygonMode::Fill
    &&& !s.conservative
    &&& !s.strip_index_format
    &&& s.depth_format == DepthFormat::Core2d
    &&& !s.depth_write_enabled
    &&& s.depth_compare == DepthCompare::GreaterEqual
    &&& s.stencil_front == StencilFace::Ignore
    &&& s.stencil_back == StencilFace::Ignore
    &&& s.stencil_read_mask == 0
    &&& s.stencil_write_mask == 0
    &&& s.depth_bias_constant == 0
    &&& s.blend == Blend::AlphaBlending
    &&& s.write_all_channels
    &&& s.sample_mask == u64::MAX
    &&& !s.alpha_to_coverage_enabled
    &&& s.label@ == "colored_mesh2d_pipeline"@
}

/// The settings of the colored-mesh pipeline that no key changes: one
/// shader module for both stages with no shader definitions, its entry points, the bind groups (view, then mesh), counter-clockwise
/// front faces with back faces culled and filled polygons, a depth test that
/// keeps fragments at or in front of the stored depth without writing depth,
/// alpha blending into all channels, and every sample written.
pub fn colored_pipeline_state() -> (s: FixedPipelineState)
    ensures
        is_colored_pipeline_state(s),
{
    let bind_group_layouts = vec![BindGroupLayout::View, BindGroupLayout::Mesh];
    assert(bind_group_layouts@ =~= colored_bind_group_layouts());
    let vertex_shader_defs: Vec<&'static str> = Vec::new();
    let fragment_shader_defs: Vec<&'static str> = Vec::new();
    FixedPipelineState {
        vertex_shader: ShaderModule::ColoredMesh,
        fragment_shader: ShaderModule::ColoredMesh,
        vertex_entry_point: "vertex",
        fragment_entry_point: "fragment",
        vertex_shader_defs,
        fragment_shader_defs,
        bind_group_layouts,
        push_constants: false,
        front_face: FrontFace::Ccw,
        cull_mode: Some(CullFace::Back),
        unclipped_depth: false,
        polygon_mode: PolygonMode::Fill,
        conservative: false,
        strip_index_format: false,
        depth_format: DepthFormat::Core2d,
        depth_write_enabled: false,
        depth_compare: DepthCompare::GreaterEqual,
        stencil_front: StencilFace::Ignore,
        stencil_back: StencilFace::Ignore,
        stencil_read_mask: 0,
        stencil_write_mask: 0,
        depth_bias_constant: 0,
        blend: Blend::AlphaBlending,
        write_all_channels: true,
        sample_mask: u64::MAX,
        alpha_to_coverage_enabled: false,
        label: "colored_mesh2d_pipeline",
    }
}

/// How a vertex buffer advances.
#[derive(Clone, Copy, Debug, PartialEq, Eq, Structural)]
pub enum VertexStepMode {
    /// One element per vertex.
    Vertex,
}

/// One attribute of a vertex buffer.
#[derive(Clone, Copy, Debug, PartialEq, Eq, Structural)]
pub struct VertexAttribute {
    pub format: VertexFormat,
    /// Byte offset of the attribute within a vertex.
    pub offset: u64,
    /// The shader input location the attribute feeds.
    pub shader_location: u32,
}

/// The layout of one vertex buffer.
#[derive(Debug)]
pub struct VertexBufferLayout {
    /// Bytes from one vertex to the next.
    pub array_stride: u64,
    pub step_mode: VertexStepMode,
    /// The attributes, in buffer order.
    pub attributes: Vec<VertexAttribute>,
}

/// The number of bytes a vertex format takes.
pub open spec fn format_size(f: VertexFormat) -> nat {
    match f {
        VertexFormat::Float32x3 => 12,
        VertexFormat::Uint32 => 4,
    }
}

/// The bytes that a sequence of formats takes, packed one after the other.
pub open spec fn formats_size(formats: Seq<VertexFormat>) -> nat
    decreases formats.len(),
{
    if formats.len() == 0 {
        0
    } else {
        formats_size(formats.drop_last()) + format_size(formats.last())
    }
}

/// The attribute that the `i`-th format becomes in a packed layout: it
/// starts where the formats before it end and feeds location `i`.
pub open spec fn packed_attribute(formats: Seq<VertexFormat>, i: int) -> VertexAttribute {
    VertexAttribute {
        format: formats[i],
        offset: formats_size(formats.take(i)) as u64,
        shader_location: i as u32,
    }
}

/// Whether `layout` packs `formats` tightly, in order, stepping per vertex.
pub open spec fn is_packed_layout(layout: VertexBufferLayout, formats: Seq<VertexFormat>) -> bool {
    &&& layout.array_stride == formats_size(formats)
    &&& layout.step_mode == VertexStepMode::Vertex
    &&& layout.attributes@.len() == formats.len()
    &&& forall|i: int|
        0 <= i < formats.len() ==> #[trigger] layout.attributes@[i] == packed_attribute(formats, i)
}

proof fn lemma_formats_size_bound(formats: Seq<VertexFormat>)
    ensures
        formats_size(formats) <= 12 * formats.len(),
    decreases formats.len(),
{
    if formats.len() > 0 {
        lemma_formats_size_bound(formats.drop_last());
    }
}

/// Lays out vertex attributes of the given formats in one vertex buffer,
/// tightly packed in order, feeding shader locations 0, 1, ...
pub fn vertex_buffer_layout(formats: &Vec<VertexFormat>) -> (layout: VertexBufferLayout)
    requires
        formats.len() <= u32::MAX,
    ensures
        is_packed_layout(layout, formats@),
{
    let mut attributes: Vec<VertexAttribute> = Vec::new();
    let mut offset: u64 = 0;
    let mut i: usize = 0;
    while i < formats.len()
        invariant
            i <= formats.len(),
            formats.len() <= u32::MAX,
            offset == formats_size(formats@.take(i as int)),
            attributes@.len() == i,
            forall|k: int| 0 <= k < i ==> #[trigger] attributes@[k] == packed_attribute(formats@, k),
        decreases formats.len() - i,
    {
        let f = formats[i];
        proof {
            assert(formats@.take(i + 1).drop_last() =~= formats@.take(i as int));
            lemma_formats_size_bound(formats@.take(i as int));
        }
        attributes.push(VertexAttribute { format: f, offset, shader_location: i as u32 });
        let size: u64 = match f {
            VertexFormat::Float32x3 => 12,
            VertexFormat::Uint32 => 4,
        };
        offset = offset + size;
        i += 1;
    }
    assert(formats@.take(formats.len() as int) =~= formats@);
    VertexBufferLayout { array_stride: offset, step_mode: VertexStepMode::Vertex, attributes }
}

/// What a pipeline key decides of the colored-mesh pipeline, with the
/// settings that stay fixed.
#[derive(Debug)]
pub struct PipelineSpec {
    /// The vertex buffers: one, holding the colored vertex formats.
    pub vertex_buffers: Vec<VertexBufferLayout>,
    /// The color target format.
    pub target_format: TargetFormat,
    /// The MSAA sample count.
    pub sample_count: u32,
    /// How vertices form primitives.
    pub topology: Topology,
    /// The settings that no key changes.
    pub fixed: FixedPipelineState,
}

/// The vertex layout of a colored mesh: a position, then a color.
pub open spec fn colored_vertex_formats() -> Seq<VertexFormat> {
    seq![VertexFormat::Float32x3, VertexFormat::Uint32]
}

/// The colored vertex formats take 16 bytes, the color starting at byte 12.
pub proof fn lemma_colored_vertex_size()
    ensures
        formats_size(colored_vertex_formats()) == 16,
        formats_size(colored_vertex_formats().take(0)) == 0,
        formats_size(colored_vertex_formats().take(1)) == 12,
{
    let fs = colored_vertex_formats();
    assert(fs.take(0) =~= Seq::<VertexFormat>::empty());
    assert(fs.take(1).drop_last() =~= fs.take(0));
    assert(fs.take(1).last() == VertexFormat::Float32x3);
    assert(formats_size(fs.take(0)) == 0);
    assert(formats_size(fs.take(1)) == 12);
    assert(fs.drop_last() =~= fs.take(1));
    assert(fs.last() == VertexFormat::Uint32);
}

/// Chooses the pipeline settings that a key selects.
pub fn specialize(key: u32) -> (spec: PipelineSpec)
    ensures
        spec.vertex_buffers@.len() == 1,
        is_packed_layout(spec.vertex_buffers@[0], colored_vertex_formats()),
        spec.vertex_buffers@[0].array_stride == 16,
        spec.vertex_buffers@[0].attributes@ == seq![
            VertexAttribute { format: VertexFormat::Float32x3, offset: 0, shader_location: 0 },
            VertexAttribute { format: VertexFormat::Uint32, offset: 12, shader_location: 1 },
        ],
        spec.target_format == TargetFormat::Rgba8Unorm,
        spec.sample_count == key_msaa_samples(key),
        spec.topology == key_topology(key),
        is_colored_pipeline_state(spec.fixed),
{
    let formats = vec![VertexFormat::Float32x3, VertexFormat::Uint32];
    assert(formats@ =~= colored_vertex_formats());
    let layout = vertex_buffer_layout(&formats);
    proof {
        lemma_colored_vertex_size();
        assert(layout.attributes@[0] == packed_attribute(colored_vertex_formats(), 0));
        assert(layout.attributes@[1] == packed_attribute(colored_vertex_formats(), 1));
        assert(layout.attributes@ =~= seq![
            VertexAttribute { format: VertexFormat::Float32x3, offset: 0, shader_location: 0 },
            VertexAttribute { format: VertexFormat::Uint32, offset: 12, shader_location: 1 },
        ]);
    }
    let vertex_buffers = vec![layout];
    // HDR and non-HDR views share the same target format here.
    let target_format = if contains_hdr(key) {
        TargetFormat::Rgba8Unorm
    } else {
        TargetFormat::Rgba8Unorm
    };
    PipelineSpec {
        vertex_buffers,
        target_format,
        sample_count: msaa_samples(key),
        topology: primitive_topology(key),
        fixed: colored_pipeline_state(),
    }
}

/// A visible entity of a view, as the queueing pass sees it.
#[derive(Clone, Copy, Debug)]
pub struct VisibleEntity {
    /// The entity, by its bits.
    pub entity: u64,
    /// `None` when the entity has no extracted colored-mesh instance;
    /// `Some(None)` when it has one whose mesh is not prepared yet;
    /// `Some(Some(t))` when its prepared mesh has topology `t`.
    pub instance: Option<Option<Topology>>,
}

/// A view (camera) as the queueing pass sees it.
#[derive(Debug)]
pub struct ViewInput {
    /// The view entity, by its bits.
    pub view: u64,
    /// Whether the view has a transparent 2D render phase.
    pub has_phase: bool,
    /// The view's MSAA sample count.
    pub msaa_samples: u32,
    /// The entities visible in the view, in visiting order.
    pub visible: Vec<VisibleEntity>,
}

/// One draw to add to a view's transparent phase.
#[derive(Clone, Copy, Debug, PartialEq, Eq, Structural)]
pub struct QueuedDraw {
    pub view: u64,
    pub entity: u64,
    /// The pipeline key to specialize the pipeline with.
    pub key: u32,
    /// First instance of the draw's batch range.
    pub batch_start: u32,
    /// End (exclusive) of the draw's batch range: one instance, not batched.
    pub batch_end: u32,
    /// The phase item's extra index.
    pub extra_index: ExtraIndex,
}

/// The extra index a phase item carries.
#[derive(Clone, Copy, Debug, PartialEq, Eq, Structural)]
pub enum ExtraIndex {
    /// No extra index.
    Empty,
}

/// The key shared by all draws of a view: its sample count, no HDR.
pub open spec fn view_key(msaa_samples: u32) -> u32 {
    msaa_key_bits(msaa_samples) | hdr_key_bits(false)
}

/// The key of one draw: the view's key, plus the mesh topology when the
/// mesh is prepared.
pub open spec fn entity_key(view_key: u32, mesh: Option<Topology>) -> u32 {
    match mesh {
        Some(t) => view_key | topology_key_bits(t),
        None => view_key,
    }
}

/// The draws that a view queues for its visible entities, in order:
/// one per entity that has an instance.
pub open spec fn entity_draws(view: u64, key: u32, ents: Seq<VisibleEntity>) -> Seq<QueuedDraw>
    decreases ents.len(),
{
    if ents.len() == 0 {
        seq![]
    } else {
        let prev = entity_draws(view, key, ents.drop_last());
        let e = ents.last();
        match e.instance {
            Some(mesh) => prev.push(QueuedDraw { batch_start: 0, batch_end: 1, extra_index: ExtraIndex::Empty,  view, entity: e.entity, key: entity_key(key, mesh) }),
            None => prev,
        }
    }
}

/// The draws of one view: none without a transparent phase.
pub open spec fn view_draws(v: ViewInput) -> Seq<QueuedDraw> {
    if v.has_phase {
        entity_draws(v.view, view_key(v.msaa_samples), v.visible@)
    } else {
        seq![]
    }
}

/// The draws of all views, view after view.
pub open spec fn all_draws(views: Seq<ViewInput>) -> Seq<QueuedDraw>
    decreases views.len(),
{
    if views.len() == 0 {
        seq![]
    } else {
        all_draws(views.drop_last()) + view_draws(views.last())
    }
}

/// What the queueing pass adds: nothing while no colored-mesh instance
/// exists, else the draws of all views.
pub open spec fn queued_draws(instances_empty: bool, views: Seq<ViewInput>) -> Seq<QueuedDraw> {
    if instances_empty {
        seq![]
    } else {
        all_draws(views)
    }
}

/// Decides the draws to queue for the colored meshes visible in each view.
pub fn queue_colored_mesh2d(instances_empty: bool, views: &Vec<ViewInput>) -> (draws: Vec<
    QueuedDraw,
>)
    ensures
        draws@ == queued_draws(instances_empty, views@),
{
    let mut draws: Vec<QueuedDraw> = Vec::new();
    if instances_empty {
        return draws;
    }
    let mut i: usize = 0;
    while i < views.len()
        invariant
            i <= views.len(),
            draws@ == all_draws(views@.take(i as int)),
        decreases views.len() - i,
    {
        let v = &views[i];
        assert(views@.take(i + 1).drop_last() =~= views@.take(i as int));
        if v.has_phase {
            let mesh_key = from_msaa_samples(v.msaa_samples) | from_hdr(false);
            let ghost before = draws@;
            let mut j: usize = 0;
            while j < v.visible.len()
                invariant
                    j <= v.visible.len(),
                    v == views@[i as int],
                    mesh_key == view_key(v.msaa_samples),
                    draws@ == before + entity_draws(v.view, mesh_key, v.visible@.take(j as int)),
                decreases v.visible.len() - j,
            {
                let e = v.visible[j];
                let ghost prefix = v.visible@.take(j as int);
                assert(v.visible@.take(j + 1).drop_last() =~= prefix);
                match e.instance {
                    Some(mesh) => {
                        let mut key = mesh_key;
                        match mesh {
                            Some(t) => {
                                key = key | from_primitive_topology(t);
                            },
                            None => {},
                        }
                        draws.push(QueuedDraw { batch_start: 0, batch_end: 1, extra_index: ExtraIndex::Empty,  view: v.view, entity: e.entity, key });
                        assert(draws@ =~= before + entity_draws(
                            v.view,
                            mesh_key,
                            v.visible@.take(j + 1),
                        ));
                    },
                    None => {},
                }
                j += 1;
            }
            assert(v.visible@.take(v.visible.len() as int) =~= v.visible@);
        } else {
            assert(draws@ =~= all_draws(views@.take(i as int)) + view_draws(views@[i as int]));
        }
        i += 1;
    }
    assert(views@.take(views.len() as int) =~= views@);
    draws
}

/// The key of every queued draw reads back, through the pipeline settings,
/// the view's sample count and the mesh's topology (a point list when the
/// mesh was not prepared), and never asks for an HDR target.
pub proof fn lemma_queued_key_decodes(msaa: u32, mesh: Option<Topology>)
    requires
        is_encodable_sample_count(msaa),
    ensures
        key_msaa_samples(entity_key(view_key(msaa), mesh)) == msaa,
        key_topology(entity_key(view_key(msaa), mesh)) == (match mesh {
            Some(t) => t,
            None => Topology::PointList,
        }),
        !key_has_hdr(entity_key(view_key(msaa), mesh)),
{
    lemma_msaa_round_trip(msaa);
    let tz = u32_trailing_zeros(msaa);
    let m: u32 = msaa_key_bits(msaa);
    assert(m == (tz & 7u32) << 29u32);
    match mesh {
        Some(t) => {
            lemma_topology_round_trip(t);
            let p: u32 = topology_key_bits(t);
            let c = crate::mesh2d_key::topology_code(t);
            assert(p == (c & 7u32) << 26u32);
            assert(((m | 0u32) | p) >> 29u32 == m >> 29u32 && ((m | 0u32) | p) >> 26u32 & 7u32 == (p
                >> 26u32) & 7u32 && ((m | 0u32) | p) & 1u32 != 1u32) by (bit_vector)
                requires
                    m == (tz & 7u32) << 29u32,
                    p == (c & 7u32) << 26u32,
            ;
        },
        None => {
            assert((m | 0u32) >> 29u32 == m >> 29u32 && ((m | 0u32) >> 26u32) & 7u32 == 0u32 && (m
                | 0u32) & 1u32 != 1u32) by (bit_vector)
                requires
                    m == (tz & 7u32) << 29u32,
            ;
        },
    }
}

/// The topology a queued key reads back for a mesh lookup: the mesh's own
/// when it was prepared, a point list (no topology bits) when it was not.
pub open spec fn read_back_topology(mesh: Option<Topology>) -> Topology {
    match mesh {
        Some(t) => t,
        None => Topology::PointList,
    }
}

/// Each draw of a view comes from one of its entities that has an instance.
proof fn lemma_entity_draw_origin(view: u64, key: u32, ents: Seq<VisibleEntity>, k: int)
    requires
        0 <= k < entity_draws(view, key, ents).len(),
    ensures
        exists|j: int|
            0 <= j < ents.len() && (#[trigger] ents[j]).instance is Some && entity_draws(
                view,
                key,
                ents,
            )[k] == (QueuedDraw { batch_start: 0, batch_end: 1, extra_index: ExtraIndex::Empty, 
                view,
                entity: ents[j].entity,
                key: entity_key(key, ents[j].instance->0),
            }),
    decreases ents.len(),
{
    let prev_ents = ents.drop_last();
    let prev = entity_draws(view, key, prev_ents);
    if k < prev.len() {
        lemma_entity_draw_origin(view, key, prev_ents, k);
        let j = choose|j: int|
            0 <= j < prev_ents.len() && (#[trigger] prev_ents[j]).instance is Some && prev[k] == (
            QueuedDraw { batch_start: 0, batch_end: 1, extra_index: ExtraIndex::Empty,  view, entity: prev_ents[j].entity, key: entity_key(key, prev_ents[j].instance->0) });
        assert(ents[j] == prev_ents[j]);
    } else {
        let j = ents.len() - 1;
        assert(ents[j] == ents.last());
    }
}

/// Each draw of all views comes from a view with a phase and one of its
/// visible entities that has an instance.
proof fn lemma_all_draw_origin(views: Seq<ViewInput>, k: int)
    requires
        0 <= k < all_draws(views).len(),
    ensures
        exists|i: int, j: int|
            0 <= i < views.len() && (#[trigger] views[i]).has_phase && 0 <= j
                < views[i].visible@.len() && (#[trigger] views[i].visible@[j]).instance is Some
                && all_draws(views)[k] == (QueuedDraw { batch_start: 0, batch_end: 1, extra_index: ExtraIndex::Empty, 
                view: views[i].view,
                entity: views[i].visible@[j].entity,
                key: entity_key(view_key(views[i].msaa_samples), views[i].visible@[j].instance->0),
            }),
    decreases views.len(),
{
    let prev_views = views.drop_last();
    let prev = all_draws(prev_views);
    if k < prev.len() {
        lemma_all_draw_origin(prev_views, k);
        let (i, j) = choose|i: int, j: int|
            0 <= i < prev_views.len() && (#[trigger] prev_views[i]).has_phase && 0 <= j
                < prev_views[i].visible@.len()
                && (#[trigger] prev_views[i].visible@[j]).instance is Some && prev[k] == (
            QueuedDraw { batch_start: 0, batch_end: 1, extra_index: ExtraIndex::Empty, 
                view: prev_views[i].view,
                entity: prev_views[i].visible@[j].entity,
                key: entity_key(
                    view_key(prev_views[i].msaa_samples),
                    prev_views[i].visible@[j].instance->0,
                ),
            });
        assert(views[i] == prev_views[i]);
        assert(views[i].visible@[j] == prev_views[i].visible@[j]);
    } else {
        let i = views.len() - 1;
        let v = views.last();
        assert(views[i] == v);
        let kk = k - prev.len();
        assert(v.has_phase);
        lemma_entity_draw_origin(v.view, view_key(v.msaa_samples), v.visible@, kk);
        let j = choose|j: int|
            0 <= j < v.visible@.len() && (#[trigger] v.visible@[j]).instance is Some && entity_draws(
                v.view,
                view_key(v.msaa_samples),
                v.visible@,
            )[kk] == (QueuedDraw { batch_start: 0, batch_end: 1, extra_index: ExtraIndex::Empty, 
                view: v.view,
                entity: v.visible@[j].entity,
                key: entity_key(view_key(v.msaa_samples), v.visible@[j].instance->0),
            });
        assert(views[i].visible@[j] == v.visible@[j]);
    }
}

/// Every queued draw is for an entity visible, with an instance, in a view
/// that has a transparent phase; it covers one unbatched instance with no
/// extra index; and the pipeline settings read back from its key give that
/// view's sample count, the entity's mesh topology (a point list while the
/// mesh is not prepared) and no HDR target.
pub proof fn lemma_queued_draws_read_back(instances_empty: bool, views: Seq<ViewInput>, k: int)
    requires
        0 <= k < queued_draws(instances_empty, views).len(),
        forall|i: int| 0 <= i < views.len() ==> is_encodable_sample_count(#[trigger] views[i].msaa_samples),
    ensures
        !instances_empty,
        exists|i: int, j: int|
            0 <= i < views.len() && (#[trigger] views[i]).has_phase && 0 <= j
                < views[i].visible@.len() && (#[trigger] views[i].visible@[j]).instance is Some && {
                let d = queued_draws(instances_empty, views)[k];
                let mesh = views[i].visible@[j].instance->0;
                &&& d.view == views[i].view
                &&& d.entity == views[i].visible@[j].entity
                &&& key_msaa_samples(d.key) == views[i].msaa_samples
                &&& key_topology(d.key) == read_back_topology(mesh)
                &&& !key_has_hdr(d.key)
                &&& d.batch_start == 0 && d.batch_end == 1
                &&& d.extra_index == ExtraIndex::Empty
            },
{
    lemma_all_draw_origin(views, k);
    let (i, j) = choose|i: int, j: int|
        0 <= i < views.len() && (#[trigger] views[i]).has_phase && 0 <= j < views[i].visible@.len()
            && (#[trigger] views[i].visible@[j]).instance is Some && all_draws(views)[k] == (
        QueuedDraw { batch_start: 0, batch_end: 1, extra_index: ExtraIndex::Empty, 
            view: views[i].view,
            entity: views[i].visible@[j].entity,
            key: entity_key(view_key(views[i].msaa_samples), views[i].visible@[j].instance->0),
        });
    lemma_queued_key_decodes(views[i].msaa_samples, views[i].visible@[j].instance->0);
}

/// How many of the entities have an extracted instance.
pub open spec fn instance_count(ents: Seq<VisibleEntity>) -> nat
    decreases ents.len(),
{
    if ents.len() == 0 {
        0
    } else {
        instance_count(ents.drop_last()) + if ents.last().instance is Some {
            1nat
        } else {
            0nat
        }
    }
}

/// How many visible entities with an instance the views with a phase hold.
pub open spec fn phase_instance_count(views: Seq<ViewInput>) -> nat
    decreases views.len(),
{
    if views.len() == 0 {
        0
    } else {
        phase_instance_count(views.drop_last()) + if views.last().has_phase {
            instance_count(views.last().visible@)
        } else {
            0nat
        }
    }
}

proof fn lemma_entity_draws_count(view: u64, key: u32, ents: Seq<VisibleEntity>)
    ensures
        entity_draws(view, key, ents).len() == instance_count(ents),
    decreases ents.len(),
{
    if ents.len() > 0 {
        lemma_entity_draws_count(view, key, ents.drop_last());
    }
}

proof fn lemma_all_draws_count(views: Seq<ViewInput>)
    ensures
        all_draws(views).len() == phase_instance_count(views),
    decreases views.len(),
{
    if views.len() > 0 {
        lemma_all_draws_count(views.drop_last());
        lemma_entity_draws_count(
            views.last().view,
            view_key(views.last().msaa_samples),
            views.last().visible@,
        );
    }
}

proof fn lemma_entity_draw_complete(view: u64, key: u32, ents: Seq<VisibleEntity>, j: int)
    requires
        0 <= j < ents.len(),
        ents[j].instance is Some,
    ensures
        exists|k: int|
            #![trigger entity_draws(view, key, ents)[k]]
            0 <= k < entity_draws(view, key, ents).len() && entity_draws(view, key, ents)[k].view
                == view && entity_draws(view, key, ents)[k].entity == ents[j].entity,
    decreases ents.len(),
{
    let prev_ents = ents.drop_last();
    let prev = entity_draws(view, key, prev_ents);
    let all = entity_draws(view, key, ents);
    if j == ents.len() - 1 {
        let k = prev.len() as int;
        assert(ents.last() == ents[j]);
        assert(all[k].entity == ents[j].entity && all[k].view == view);
    } else {
        lemma_entity_draw_complete(view, key, prev_ents, j);
        let k = choose|k: int|
            #![trigger entity_draws(view, key, prev_ents)[k]]
            0 <= k < prev.len() && prev[k].view == view && prev[k].entity == prev_ents[j].entity;
        assert(prev_ents[j] == ents[j]);
        assert(all[k] == prev[k]);
    }
}

proof fn lemma_all_draw_complete(views: Seq<ViewInput>, i: int, j: int)
    requires
        0 <= i < views.len(),
        views[i].has_phase,
        0 <= j < views[i].visible@.len(),
        views[i].visible@[j].instance is Some,
    ensures
        exists|k: int|
            #![trigger all_draws(views)[k]]
            0 <= k < all_draws(views).len() && all_draws(views)[k].view == views[i].view
                && all_draws(views)[k].entity == views[i].visible@[j].entity,
    decreases views.len(),
{
    let prev_views = views.drop_last();
    let prev = all_draws(prev_views);
    let all = all_draws(views);
    if i == views.len() - 1 {
        let v = views.last();
        assert(v == views[i]);
        let vd = entity_draws(v.view, view_key(v.msaa_samples), v.visible@);
        lemma_entity_draw_complete(v.view, view_key(v.msaa_samples), v.visible@, j);
        let kk = choose|kk: int|
            #![trigger entity_draws(v.view, view_key(v.msaa_samples), v.visible@)[kk]]
            0 <= kk < vd.len() && vd[kk].view == v.view && vd[kk].entity == v.visible@[j].entity;
        let k = prev.len() + kk;
        assert(all[k] == vd[kk]);
    } else {
        lemma_all_draw_complete(prev_views, i, j);
        assert(prev_views[i] == views[i]);
        let k = choose|k: int|
            #![trigger all_draws(prev_views)[k]]
            0 <= k < prev.len() && prev[k].view == prev_views[i].view && prev[k].entity
                == prev_views[i].visible@[j].entity;
        assert(all[k] == prev[k]);
    }
}

/// Queueing misses no mesh: while instances exist, every entity visible
/// with an instance in a view that has a transparent phase gets a draw in
/// that view, whatever its mesh, and there are exactly as many draws as
/// such entities, so none is queued twice.
pub proof fn lemma_queue_complete(views: Seq<ViewInput>, i: int, j: int)
    requires
        0 <= i < views.len(),
        views[i].has_phase,
        0 <= j < views[i].visible@.len(),
        views[i].visible@[j].instance is Some,
    ensures
        queued_draws(false, views).len() == phase_instance_count(views),
        exists|k: int|
            #![trigger queued_draws(false, views)[k]]
            0 <= k < queued_draws(false, views).len() && queued_draws(false, views)[k].view
                == views[i].view && queued_draws(false, views)[k].entity
                == views[i].visible@[j].entity,
{
    lemma_all_draws_count(views);
    lemma_all_draw_complete(views, i, j);
    let all = all_draws(views);
    let k = choose|k: int|
        #![trigger all_draws(views)[k]]
        0 <= k < all.len() && all[k].view == views[i].view && all[k].entity
            == views[i].visible@[j].entity;
    assert(queued_draws(false, views)[k] == all[k]);
}

/// While no instance exists nothing is queued, whatever the views hold.
pub proof fn lemma_queue_empty_without_instances(views: Seq<ViewInput>)
    ensures
        queued_draws(true, views).len() == 0,
{
}

/// How many entries of the sequence are set.
pub open spec fn set_count(visibility: Seq<bool>) -> nat
    decreases visibility.len(),
{
    if visibility.len() == 0 {
        0
    } else {
        set_count(visibility.drop_last()) + if visibility.last() {
            1nat
        } else {
            0nat
        }
    }
}

/// The material bind group an extracted instance uses.
#[derive(Clone, Copy, Debug, PartialEq, Eq, Structural)]
pub enum MaterialBindGroup {
    /// The default bind group id: colored meshes have no material.
    Default,
}

/// The render-world instance made for one extracted entity, apart from its
/// mesh handle and transform.
#[derive(Clone, Copy, Debug, PartialEq, Eq, Structural)]
pub struct ExtractedInstance {
    /// Where the entity stood among the entities visited.
    pub position: usize,
    /// The mesh flag bits: none set.
    pub mesh_flags: u32,
    pub material_bind_group: MaterialBindGroup,
    /// Whether the instance may be batched automatically.
    pub automatic_batching: bool,
}

/// The instance made for the entity visited at `position`.
pub open spec fn instance_at(position: usize) -> ExtractedInstance {
    ExtractedInstance {
        position,
        mesh_flags: 0,
        material_bind_group: MaterialBindGroup::Default,
        automatic_batching: false,
    }
}

/// The instances made for the visible entities, in visiting order.
pub open spec fn extracted_instances(visibility: Seq<bool>) -> Seq<ExtractedInstance>
    decreases visibility.len(),
{
    if visibility.len() == 0 {
        seq![]
    } else {
        let prev = extracted_instances(visibility.drop_last());
        if visibility.last() {
            prev.push(instance_at((visibility.len() - 1) as usize))
        } else {
            prev
        }
    }
}

/// Picks the colored-mesh entities to extract into the render world: those
/// whose view visibility is set, in the order visited, each with no mesh
/// flags, the default material bind group and automatic batching off. The
/// count of picked entities is kept in `previous_len`, which sizes the next
/// frame's buffer.
pub fn extract_colored_mesh2d(visibility: &Vec<bool>, previous_len: &mut usize) -> (kept: Vec<
    ExtractedInstance,
>)
    ensures
        kept@ == extracted_instances(visibility@),
        *final(previous_len) == kept.len(),
{
    let mut kept: Vec<ExtractedInstance> = Vec::with_capacity(*previous_len);
    let mut i: usize = 0;
    while i < visibility.len()
        invariant
            i <= visibility.len(),
            kept@ == extracted_instances(visibility@.take(i as int)),
        decreases visibility.len() - i,
    {
        assert(visibility@.take(i + 1).drop_last() =~= visibility@.take(i as int));
        if visibility[i] {
            kept.push(
                ExtractedInstance {
                    position: i,
                    mesh_flags: 0,
                    material_bind_group: MaterialBindGroup::Default,
                    automatic_batching: false,
                },
            );
        }
        i += 1;
    }
    assert(visibility@.take(visibility.len() as int) =~= visibility@);
    *previous_len = kept.len();
    kept
}

/// Which worlds keep a mesh asset.
#[derive(Clone, Copy, Debug, PartialEq, Eq, Structural)]
pub enum AssetUsage {
    /// Only the render world: the main world drops it once uploaded.
    RenderWorld,
}

/// A vertex attribute of a mesh, by its id and format.
#[derive(Clone, Copy, Debug, PartialEq, Eq, Structural)]
pub struct MeshAttribute {
    /// The attribute id; a mesh interleaves its attributes by increasing id.
    pub id: u64,
    pub format: VertexFormat,
}

/// The attribute id of vertex positions.
pub const POSITION_ATTRIBUTE_ID: u64 = 0;

/// The attribute id of the star's vertex colors.
pub const COLOR_ATTRIBUTE_ID: u64 = 1;

/// Extraction misses no visible entity and invents none: there are as many
/// extracted instances as visible entities; every visible entity's position
/// has an instance; every instance stands for a visible entity, with no
/// mesh flags, the default material bind group and automatic batching off;
/// and instances follow visiting order. (The sequence is the contents of a
/// vector, so its length fits a `usize`.)
pub proof fn lemma_extraction_complete(visibility: Seq<bool>)
    requires
        visibility.len() <= usize::MAX,
    ensures
        extracted_instances(visibility).len() == set_count(visibility),
        forall|i: int|
            0 <= i < visibility.len() && #[trigger] visibility[i] ==> exists|k: int|
                #![trigger extracted_instances(visibility)[k]]
                0 <= k < extracted_instances(visibility).len() && extracted_instances(
                    visibility,
                )[k].position == i,
        forall|k: int|
            #![trigger extracted_instances(visibility)[k]]
            0 <= k < extracted_instances(visibility).len() ==> {
                let e = extracted_instances(visibility)[k];
                &&& e.position < visibility.len()
                &&& visibility[e.position as int]
                &&& e.mesh_flags == 0
                &&& e.material_bind_group == MaterialBindGroup::Default
                &&& !e.automatic_batching
            },
        forall|k1: int, k2: int|
            0 <= k1 < k2 < extracted_instances(visibility).len() ==> (#[trigger] extracted_instances(
                visibility,
            )[k1]).position < (#[trigger] extracted_instances(visibility)[k2]).position,
    decreases visibility.len(),
{
    if visibility.len() > 0 {
        let prev_vis = visibility.drop_last();
        let prev = extracted_instances(prev_vis);
        let all = extracted_instances(visibility);
        let last = visibility.len() - 1;
        assert(visibility.last() == visibility[last]);
        lemma_extraction_complete(prev_vis);
        assert forall|k: int| 0 <= k < prev.len() implies #[trigger] all[k] == prev[k] by {}
        assert forall|k: int|
            #![trigger all[k]]
            0 <= k < all.len() implies {
            let e = all[k];
            &&& e.position < visibility.len()
            &&& visibility[e.position as int]
            &&& e.mesh_flags == 0
            &&& e.material_bind_group == MaterialBindGroup::Default
            &&& !e.automatic_batching
        } by {
            if k < prev.len() {
                assert(all[k] == prev[k]);
                assert(prev_vis[prev[k].position as int] == visibility[prev[k].position as int]);
            } else {
                assert(visibility[last]);
                assert(all[k] == instance_at(last as usize));
            }
        }
        assert forall|i: int| 0 <= i < visibility.len() && #[trigger] visibility[i] implies exists|
            k: int,
        |
            #![trigger all[k]]
            0 <= k < all.len() && all[k].position == i by {
            if i == last {
                assert(all[prev.len() as int].position == i);
            } else {
                assert(prev_vis[i] == visibility[i]);
                let k = choose|k: int| #![trigger prev[k]] 0 <= k < prev.len() && prev[k].position == i;
                assert(all[k] == prev[k]);
            }
        }
        assert forall|k1: int, k2: int|
            0 <= k1 < k2 < all.len() implies (#[trigger] all[k1]).position < (
            #[trigger] all[k2]).position by {
            assert(all[k1] == prev[k1]);
            if k2 < prev.len() {
                assert(all[k2] == prev[k2]);
            } else {
                assert(prev[k1].position < prev_vis.len());
            }
        }
    }
}

/// The parts of the star mesh that are not positions: how its vertices form
/// primitives, which world keeps it, its vertex attributes, one packed color
/// per vertex and the vertex indices.
#[derive(Debug)]
pub struct StarMesh {
    pub topology: Topology,
    pub asset_usage: AssetUsage,
    /// The vertex attributes: the position, then the color.
    pub attributes: Vec<MeshAttribute>,
    /// The name of the color attribute.
    pub color_attribute_name: &'static str,
    pub colors: Vec<u32>,
    pub indices: Vec<u32>,
}

/// The star's vertex attributes: position (id 0, three floats), then
/// color (id 1, a packed `u32`).
pub open spec fn star_attributes() -> Seq<MeshAttribute> {
    seq![
        MeshAttribute { id: POSITION_ATTRIBUTE_ID, format: VertexFormat::Float32x3 },
        MeshAttribute { id: COLOR_ATTRIBUTE_ID, format: VertexFormat::Uint32 },
    ]
}

/// The formats of mesh attributes, in the order given.
pub open spec fn attribute_formats(attributes: Seq<MeshAttribute>) -> Seq<VertexFormat> {
    attributes.map_values(|a: MeshAttribute| a.format)
}

/// Whether `indices` describe whole triangles over `vertex_count` vertices.
pub open spec fn is_triangle_list_over(indices: Seq<u32>, vertex_count: nat) -> bool {
    &&& indices.len() % 3 == 0
    &&& forall|k: int| 0 <= k < indices.len() ==> indices[k] < vertex_count
}

/// Describes the star: one triangle, kept only in the render world, whose
/// first vertex has the color `first_color` and whose two other vertices
/// have the color `other_color`.
pub fn star(first_color: u32, other_color: u32) -> (mesh: StarMesh)
    ensures
        mesh.topology == Topology::TriangleList,
        mesh.asset_usage == AssetUsage::RenderWorld,
        mesh.attributes@ == star_attributes(),
        mesh.color_attribute_name@ == "Vertex_Color"@,
        mesh.colors@ == seq![first_color, other_color, other_color],
        mesh.indices@ == seq![0u32, 1u32, 2u32],
        is_triangle_list_over(mesh.indices@, mesh.colors@.len()),
{
    let mut colors: Vec<u32> = vec![first_color];
    let mut n: usize = 0;
    while n < 2
        invariant
            n <= 2,
            colors@.len() == 1 + n,
            colors@[0] == first_color,
            forall|k: int| 1 <= k < colors@.len() ==> colors@[k] == other_color,
        decreases 2 - n,
    {
        colors.push(other_color);
        n += 1;
    }
    assert(colors@ =~= seq![first_color, other_color, other_color]);
    let indices: Vec<u32> = vec![0, 1, 2];
    assert(indices@ =~= seq![0u32, 1u32, 2u32]);
    let attributes = vec![
        MeshAttribute { id: POSITION_ATTRIBUTE_ID, format: VertexFormat::Float32x3 },
        MeshAttribute { id: COLOR_ATTRIBUTE_ID, format: VertexFormat::Uint32 },
    ];
    assert(attributes@ =~= star_attributes());
    StarMesh {
        topology: Topology::TriangleList,
        asset_usage: AssetUsage::RenderWorld,
        attributes,
        color_attribute_name: "Vertex_Color",
        colors,
        indices,
    }
}

/// The star's vertices fit the colored-mesh pipeline: its attributes, taken
/// in increasing id order as a mesh interleaves them, have exactly the
/// pipeline's vertex formats, so the star's vertex layout is the pipeline's
/// buffer layout (16 bytes per vertex, the color at byte 12).
pub proof fn lemma_star_matches_pipeline_layout()
    ensures
        forall|a: int, b: int|
            0 <= a < b < star_attributes().len() ==> star_attributes()[a].id
                < star_attributes()[b].id,
        attribute_formats(star_attributes()) == colored_vertex_formats(),
        formats_size(attribute_formats(star_attributes())) == 16,
        packed_attribute(attribute_formats(star_attributes()), 1).offset == 12,
{
    assert(attribute_formats(star_attributes()) =~= colored_vertex_formats());
    lemma_colored_vertex_size();
}

} // verus!
