use shader_quad::colored_mesh2d::{
    vertex_buffer_layout, AssetUsage, ExtraIndex, ExtractedInstance, MaterialBindGroup,
    MeshAttribute, ShaderModule, VertexAttribute, VertexStepMode, colored_pipeline_state, BindGroupLayout, Blend, CullFace, DepthCompare, DepthFormat,
    FrontFace, PolygonMode, StencilFace, extract_colored_mesh2d, queue_colored_mesh2d, specialize, star, QueuedDraw, TargetFormat,
    VertexFormat, ViewInput, VisibleEntity,
};
use shader_quad::mesh2d_key::{
    from_hdr, from_msaa_samples, from_primitive_topology, Topology, HDR_BIT,
};
use shader_quad::window::{window_origin, WindowPlacement};

fn view(view: u64, has_phase: bool, msaa_samples: u32, visible: Vec<VisibleEntity>) -> ViewInput {
    ViewInput { view, has_phase, msaa_samples, visible }
}

fn draw(view: u64, entity: u64, key: u32) -> QueuedDraw {
    QueuedDraw { view, entity, key, batch_start: 0, batch_end: 1, extra_index: ExtraIndex::Empty }
}

fn instance(position: usize) -> ExtractedInstance {
    ExtractedInstance {
        position,
        mesh_flags: 0,
        material_bind_group: MaterialBindGroup::Default,
        automatic_batching: false,
    }
}

#[test]
fn specialize_reads_samples_and_topology() {
    let key = from_msaa_samples(4) | from_primitive_topology(Topology::TriangleList);
    let spec = specialize(key);
    assert_eq!(spec.vertex_buffers.len(), 1);
    let buffer = &spec.vertex_buffers[0];
    assert_eq!(buffer.array_stride, 16);
    assert_eq!(buffer.step_mode, VertexStepMode::Vertex);
    assert_eq!(
        buffer.attributes,
        vec![
            VertexAttribute { format: VertexFormat::Float32x3, offset: 0, shader_location: 0 },
            VertexAttribute { format: VertexFormat::Uint32, offset: 12, shader_location: 1 },
        ]
    );
    assert_eq!(spec.target_format, TargetFormat::Rgba8Unorm);
    assert_eq!(spec.sample_count, 4);
    assert_eq!(spec.topology, Topology::TriangleList);
}

#[test]
fn specialize_uses_the_same_target_with_hdr() {
    let spec = specialize(HDR_BIT | from_msaa_samples(8));
    assert_eq!(spec.target_format, TargetFormat::Rgba8Unorm);
    assert_eq!(spec.sample_count, 8);
    assert_eq!(spec.topology, Topology::PointList);
}

#[test]
fn queue_nothing_without_instances() {
    let views = vec![view(
        1,
        true,
        4,
        vec![VisibleEntity { entity: 7, instance: Some(Some(Topology::TriangleList)) }],
    )];
    assert!(queue_colored_mesh2d(true, &views).is_empty());
}

#[test]
fn queue_keys_combine_view_and_mesh() {
    let views = vec![
        view(
            1,
            true,
            4,
            vec![
                VisibleEntity { entity: 7, instance: Some(Some(Topology::TriangleList)) },
                VisibleEntity { entity: 8, instance: None },
                VisibleEntity { entity: 9, instance: Some(None) },
            ],
        ),
        view(
            2,
            false,
            1,
            vec![VisibleEntity { entity: 7, instance: Some(Some(Topology::TriangleList)) }],
        ),
        view(
            3,
            true,
            1,
            vec![VisibleEntity { entity: 10, instance: Some(Some(Topology::LineList)) }],
        ),
    ];
    let draws = queue_colored_mesh2d(false, &views);
    let view_key_4 = (2u32 << 29) | from_hdr(false);
    assert_eq!(
        draws,
        vec![
            draw(1, 7, view_key_4 | (3 << 26)),
            draw(1, 9, view_key_4),
            draw(3, 10, 1 << 26),
        ]
    );
    // What the pipeline is specialized with reads back what was queued.
    let first = specialize(draws[0].key);
    assert_eq!(first.sample_count, 4);
    assert_eq!(first.topology, Topology::TriangleList);
    let pending = specialize(draws[1].key);
    assert_eq!(pending.sample_count, 4);
    assert_eq!(pending.topology, Topology::PointList);
}

#[test]
fn queue_with_no_views() {
    assert!(queue_colored_mesh2d(false, &Vec::new()).is_empty());
}

#[test]
fn extract_keeps_visible_in_order_and_counts_them() {
    let mut previous_len: usize = 5;
    let kept = extract_colored_mesh2d(&vec![true, false, true, true, false], &mut previous_len);
    assert_eq!(kept, vec![instance(0), instance(2), instance(3)]);
    assert_eq!(previous_len, 3);
}

#[test]
fn extract_nothing_visible() {
    let mut previous_len: usize = 3;
    let kept = extract_colored_mesh2d(&vec![false, false], &mut previous_len);
    assert!(kept.is_empty());
    assert_eq!(previous_len, 0);
}

#[test]
fn star_is_one_triangle() {
    let black: u32 = 0xFF00_0000;
    let yellow: u32 = 0xFF00_FFFF;
    let mesh = star(black, yellow);
    assert_eq!(mesh.topology, Topology::TriangleList);
    assert_eq!(mesh.asset_usage, AssetUsage::RenderWorld);
    assert_eq!(
        mesh.attributes,
        vec![
            MeshAttribute { id: 0, format: VertexFormat::Float32x3 },
            MeshAttribute { id: 1, format: VertexFormat::Uint32 },
        ]
    );
    assert_eq!(mesh.color_attribute_name, "Vertex_Color");
    assert_eq!(mesh.colors, vec![black, yellow, yellow]);
    assert_eq!(mesh.indices, vec![0, 1, 2]);
    assert!(mesh.indices.iter().all(|&i| (i as usize) < mesh.colors.len()));
}

#[test]
fn window_origin_reads_the_placement() {
    assert_eq!(window_origin(&WindowPlacement::At { x: 120, y: -40 }), (120, -40));
    assert_eq!(window_origin(&WindowPlacement::Automatic), (0, 0));
    assert_eq!(window_origin(&WindowPlacement::Centered), (0, 0));
}

#[test]
fn fixed_pipeline_state() {
    let s = colored_pipeline_state();
    assert_eq!(s.vertex_shader, ShaderModule::ColoredMesh);
    assert_eq!(s.fragment_shader, ShaderModule::ColoredMesh);
    assert!(s.vertex_shader_defs.is_empty());
    assert!(s.fragment_shader_defs.is_empty());
    assert_eq!(s.vertex_entry_point, "vertex");
    assert_eq!(s.fragment_entry_point, "fragment");
    assert_eq!(s.bind_group_layouts, vec![BindGroupLayout::View, BindGroupLayout::Mesh]);
    assert!(!s.push_constants);
    assert_eq!(s.front_face, FrontFace::Ccw);
    assert_eq!(s.cull_mode, Some(CullFace::Back));
    assert!(!s.unclipped_depth);
    assert_eq!(s.polygon_mode, PolygonMode::Fill);
    assert!(!s.conservative);
    assert!(!s.strip_index_format);
    assert_eq!(s.depth_format, DepthFormat::Core2d);
    assert!(!s.depth_write_enabled);
    assert_eq!(s.depth_compare, DepthCompare::GreaterEqual);
    assert_eq!(s.stencil_front, StencilFace::Ignore);
    assert_eq!(s.stencil_back, StencilFace::Ignore);
    assert_eq!(s.stencil_read_mask, 0);
    assert_eq!(s.stencil_write_mask, 0);
    assert_eq!(s.depth_bias_constant, 0);
    assert_eq!(s.blend, Blend::AlphaBlending);
    assert!(s.write_all_channels);
    assert_eq!(s.sample_mask, !0u64);
    assert!(!s.alpha_to_coverage_enabled);
    assert_eq!(s.label, "colored_mesh2d_pipeline");
}

#[test]
fn specialize_carries_the_fixed_state() {
    let spec = specialize(from_msaa_samples(2));
    assert_eq!(spec.fixed.label, "colored_mesh2d_pipeline");
    assert_eq!(spec.fixed.cull_mode, Some(CullFace::Back));
    assert_eq!(spec.fixed.sample_mask, u64::MAX);
}

#[test]
fn star_layout_is_the_pipeline_layout() {
    let mesh = star(1, 2);
    let formats: Vec<VertexFormat> = mesh.attributes.iter().map(|a| a.format).collect();
    let layout = vertex_buffer_layout(&formats);
    let spec = specialize(from_msaa_samples(4));
    assert_eq!(layout.array_stride, spec.vertex_buffers[0].array_stride);
    assert_eq!(layout.attributes, spec.vertex_buffers[0].attributes);
}

#[test]
fn vertex_layout_packs_in_order() {
    let layout = vertex_buffer_layout(&vec![
        VertexFormat::Uint32,
        VertexFormat::Float32x3,
        VertexFormat::Uint32,
    ]);
    assert_eq!(layout.array_stride, 20);
    assert_eq!(
        layout.attributes,
        vec![
            VertexAttribute { format: VertexFormat::Uint32, offset: 0, shader_location: 0 },
            VertexAttribute { format: VertexFormat::Float32x3, offset: 4, shader_location: 1 },
            VertexAttribute { format: VertexFormat::Uint32, offset: 16, shader_location: 2 },
        ]
    );
    let empty = vertex_buffer_layout(&Vec::new());
    assert_eq!(empty.array_stride, 0);
    assert!(empty.attributes.is_empty());
}
