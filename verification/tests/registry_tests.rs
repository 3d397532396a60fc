use voxel_gi::desc::{
    AccessorDesc, BufferViewDesc, MatrixData, MeshDesc, NodeDesc, PrimitiveDesc, SceneDesc,
};
use voxel_gi::formats::{DataType, Dimensions};
use voxel_gi::material::{TextureSel, UNIT_FACTOR_WORD, ZERO_FACTOR_WORD};
use voxel_gi::material::resolve_material;
use voxel_gi::registry::{ColorTarget, DrawCommand, LayoutRef};
use voxel_gi::scene::Scene;
use voxel_gi::shader::{Semantic, Shader};

fn matrix(tag: u32) -> MatrixData {
    MatrixData { words: (0..16).map(|i| tag * 100 + i).collect() }
}

fn two_record_scene() -> Scene {
    let desc = SceneDesc {
        nodes: vec![NodeDesc { local_transform: matrix(1), children: vec![], mesh: Some(0) }],
        roots: vec![0],
        meshes: vec![MeshDesc {
            primitives: vec![
                PrimitiveDesc {
                    attributes: vec![(Semantic::Positions, 0)],
                    indices: None,
                    material: None,
                },
                PrimitiveDesc {
                    attributes: vec![(Semantic::Normals, 0)],
                    indices: None,
                    material: None,
                },
            ],
        }],
        accessors: vec![AccessorDesc {
            view: Some(0),
            offset: 0,
            count: 3,
            data_type: DataType::F32,
            dimensions: Dimensions::Vec3,
            normalized: false,
        }],
        views: vec![BufferViewDesc { buffer: 0, offset: 0, length: 36, stride: None }],
        materials: vec![],
        image_count: 0,
    };
    let buffers = vec![vec![0u8; 36]];
    Scene::from_gltf(&desc, &buffers).unwrap()
}

fn shader(module: usize) -> Shader {
    Shader { vs_entry: "vs_main".to_string(), fs_entry: "fs_main".to_string(), module }
}

#[test]
fn two_passes_hold_independent_pipeline_sets() {
    let mut scene = two_record_scene();
    scene.generate_pipeline(&shader(0), "shadow", &vec![7], &vec![], true, true);
    scene.generate_pipeline(&shader(1), "main", &vec![7, 8], &vec![None], true, true);
    assert!(scene.has_pass("shadow"));
    assert!(scene.has_pass("main"));
    assert_eq!(scene.pipeline_lists.len(), 2);
    let shadow = &scene.pipeline_lists[0].1;
    let main = &scene.pipeline_lists[1].1;
    assert_eq!(shadow.pipeline_list.len(), scene.render_datas.len());
    assert_eq!(main.pipeline_list.len(), scene.render_datas.len());
    // No compiled pipeline is shared between the two sets.
    for a in &shadow.pipeline_list {
        for b in &main.pipeline_list {
            assert_ne!(a.id, b.id);
        }
    }
    assert_eq!(shadow.bind_group_start_index, 1);
    assert_eq!(main.bind_group_start_index, 2);
}

#[test]
fn re_registering_a_pass_replaces_its_set() {
    let mut scene = two_record_scene();
    scene.generate_pipeline(&shader(0), "shadow", &vec![], &vec![], true, true);
    let first_ids: Vec<u64> =
        scene.pipeline_lists[0].1.pipeline_list.iter().map(|p| p.id).collect();
    scene.generate_pipeline(&shader(2), "shadow", &vec![9], &vec![], false, false);
    assert_eq!(scene.pipeline_lists.len(), 1);
    let set = &scene.pipeline_lists[0].1;
    assert_eq!(set.bind_group_start_index, 1);
    for (p, old) in set.pipeline_list.iter().zip(first_ids.iter()) {
        assert_ne!(p.id, *old);
        assert_eq!(p.shader_module, 2);
        assert!(!p.depth);
        assert!(!p.cull_back_face);
    }
}

#[test]
fn pipelines_compose_pass_layouts_with_scene_layouts() {
    let mut scene = two_record_scene();
    let target = Some(ColorTarget { format: 42, blend: None, write_mask: 0 });
    scene.generate_pipeline(&shader(5), "voxelization", &vec![3, 4], &vec![target], false, false);
    let set = &scene.pipeline_lists[0].1;
    for p in &set.pipeline_list {
        assert_eq!(
            p.bind_group_layouts,
            vec![
                LayoutRef::External(3),
                LayoutRef::External(4),
                LayoutRef::Transform,
                LayoutRef::Material
            ]
        );
        assert_eq!(p.targets, vec![target]);
        assert_eq!(p.vs_entry, "vs_main");
        assert_eq!(p.fs_entry, "fs_main");
    }
    // Each pipeline carries its own record's vertex layout.
    assert_eq!(set.pipeline_list[0].vertex_layouts.len(), 1);
    assert_eq!(
        set.pipeline_list[0].vertex_layouts[0].attributes[0].shader_location,
        scene.render_datas[0].layouts[0].attributes[0].shader_location
    );
    assert_eq!(
        set.pipeline_list[1].vertex_layouts[0].attributes[0].shader_location,
        scene.render_datas[1].layouts[0].attributes[0].shader_location
    );
}

#[test]
fn draw_commands_follow_the_stored_order() {
    let mut scene = two_record_scene();
    scene.generate_pipeline(&shader(0), "main", &vec![11], &vec![], true, true);
    let cmds = scene.draw_pipelines("main");
    let t0 = scene.render_datas[0].transform_bind_group_id;
    let m0 = scene.render_datas[0].material_bind_group_id;
    let t1 = scene.render_datas[1].transform_bind_group_id;
    let m1 = scene.render_datas[1].material_bind_group_id;
    assert_eq!(
        cmds,
        vec![
            DrawCommand::SetPipeline { pass_pipeline: 0 },
            DrawCommand::SetVertexBuffer { slot: 0, buffer_id: 0, offset: 0 },
            DrawCommand::SetBindGroup { index: 1, group_id: t0 },
            DrawCommand::SetBindGroup { index: 2, group_id: m0 },
            DrawCommand::Draw { count: 3 },
            DrawCommand::SetPipeline { pass_pipeline: 1 },
            DrawCommand::SetVertexBuffer { slot: 0, buffer_id: 0, offset: 0 },
            DrawCommand::SetBindGroup { index: 1, group_id: t1 },
            DrawCommand::SetBindGroup { index: 2, group_id: m1 },
            DrawCommand::Draw { count: 3 },
        ]
    );
}

#[test]
fn material_resolution_substitutes_all_defaults() {
    let group = resolve_material(&vec![], &None);
    assert_eq!(group.base_color, TextureSel::White);
    assert_eq!(group.metallic_roughness, TextureSel::White);
    assert_eq!(group.normal, TextureSel::FlatNormal);
    assert_eq!(group.data.base_color_factor.r, UNIT_FACTOR_WORD);
    assert_eq!(group.data.base_color_factor.a, UNIT_FACTOR_WORD);
    assert_eq!(group.data.metallic_factor, UNIT_FACTOR_WORD);
    assert_eq!(group.data.roughness_factor, UNIT_FACTOR_WORD);
    assert_eq!(group.data.alpha_cut_off, ZERO_FACTOR_WORD);
    assert_eq!(group.data.filler, 0);
}

#[test]
fn factor_words_encode_the_documented_defaults() {
    assert_eq!(UNIT_FACTOR_WORD, 1.0f32.to_bits());
    assert_eq!(ZERO_FACTOR_WORD, 0.0f32.to_bits());
}
