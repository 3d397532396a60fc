use voxel_gi::desc::{
    AccessorDesc, BufferViewDesc, MaterialDesc, MatrixData, MeshDesc, NodeDesc, PrimitiveDesc,
    SceneDesc,
};
use voxel_gi::formats::{DataType, Dimensions, IndexFormat};
use voxel_gi::material::TextureSel;
use voxel_gi::scene::{BindGroupPlan, Scene};
use voxel_gi::shader::Semantic;
use voxel_gi::LoadError;

fn matrix(tag: u32) -> MatrixData {
    MatrixData { words: (0..16).map(|i| tag * 100 + i).collect() }
}

fn position_accessor(view: usize, count: u32) -> AccessorDesc {
    AccessorDesc {
        view: Some(view),
        offset: 0,
        count,
        data_type: DataType::F32,
        dimensions: Dimensions::Vec3,
        normalized: false,
    }
}

fn base_desc() -> (SceneDesc, Vec<Vec<u8>>) {
    let desc = SceneDesc {
        nodes: vec![NodeDesc { local_transform: matrix(1), children: vec![], mesh: Some(0) }],
        roots: vec![0],
        meshes: vec![MeshDesc {
            primitives: vec![PrimitiveDesc {
                attributes: vec![(Semantic::Positions, 0)],
                indices: None,
                material: None,
            }],
        }],
        accessors: vec![position_accessor(0, 3)],
        views: vec![BufferViewDesc { buffer: 0, offset: 0, length: 36, stride: None }],
        materials: vec![],
        image_count: 0,
    };
    let buffers = vec![vec![0u8; 36]];
    (desc, buffers)
}

#[test]
fn position_stream_without_index_draws_its_element_count() {
    let (desc, buffers) = base_desc();
    let scene = Scene::from_gltf(&desc, &buffers).unwrap();
    assert_eq!(scene.render_datas.len(), 1);
    let rec = &scene.render_datas[0];
    assert_eq!(rec.draw_count, 3);
    assert!(rec.index_data.is_none());
    assert_eq!(rec.layouts.len(), 1);
    assert_eq!(rec.used_views.len(), 1);
    assert_eq!(rec.used_views[0].view_index, 0);
    assert_eq!(rec.used_views[0].offset, 0);
    assert_eq!(rec.layouts[0].array_stride, 12);
    assert_eq!(rec.layouts[0].attributes.len(), 1);
    assert_eq!(rec.layouts[0].attributes[0].shader_location, 0);
}

#[test]
fn index_accessor_overrides_the_draw_count() {
    let (mut desc, mut buffers) = base_desc();
    buffers.push(vec![0u8; 12]);
    desc.views.push(BufferViewDesc { buffer: 1, offset: 0, length: 12, stride: None });
    desc.accessors.push(AccessorDesc {
        view: Some(1),
        offset: 0,
        count: 6,
        data_type: DataType::U16,
        dimensions: Dimensions::Scalar,
        normalized: false,
    });
    desc.meshes[0].primitives[0].indices = Some(1);
    let scene = Scene::from_gltf(&desc, &buffers).unwrap();
    let rec = &scene.render_datas[0];
    assert_eq!(rec.draw_count, 6);
    let ix = rec.index_data.unwrap();
    assert_eq!(ix.format, IndexFormat::Uint16);
    assert_eq!(ix.format.byte_size(), 2);
    assert_eq!(ix.buffer_id, 1);
}

#[test]
fn a_32_bit_index_accessor_gets_a_4_byte_format() {
    let (mut desc, mut buffers) = base_desc();
    buffers.push(vec![0u8; 24]);
    desc.views.push(BufferViewDesc { buffer: 1, offset: 0, length: 24, stride: None });
    desc.accessors.push(AccessorDesc {
        view: Some(1),
        offset: 0,
        count: 6,
        data_type: DataType::U32,
        dimensions: Dimensions::Scalar,
        normalized: false,
    });
    desc.meshes[0].primitives[0].indices = Some(1);
    let scene = Scene::from_gltf(&desc, &buffers).unwrap();
    let ix = scene.render_datas[0].index_data.unwrap();
    assert_eq!(ix.format, IndexFormat::Uint32);
    assert_eq!(ix.format.byte_size(), 4);
}

#[test]
fn primitive_without_attributes_fails_and_yields_no_scene() {
    let (mut desc, buffers) = base_desc();
    desc.meshes[0].primitives[0].attributes = vec![];
    let r = Scene::from_gltf(&desc, &buffers);
    assert!(matches!(r, Err(LoadError::NoRenderableAttributes)));
}

#[test]
fn attribute_accessors_without_views_do_not_resolve() {
    let (mut desc, buffers) = base_desc();
    desc.accessors[0].view = None;
    let r = Scene::from_gltf(&desc, &buffers);
    assert!(matches!(r, Err(LoadError::NoRenderableAttributes)));
}

#[test]
fn transform_factor_lists_compose_parent_times_local() {
    let (mut desc, buffers) = base_desc();
    desc.nodes[0].children = vec![1, 2];
    desc.nodes.push(NodeDesc { local_transform: matrix(2), children: vec![], mesh: None });
    desc.nodes.push(NodeDesc { local_transform: matrix(3), children: vec![3], mesh: None });
    desc.nodes.push(NodeDesc { local_transform: matrix(4), children: vec![], mesh: None });
    let scene = Scene::from_gltf(&desc, &buffers).unwrap();
    // One transform group per node, each holding the factor list of
    // the node's root path.
    let mut found = vec![false; 4];
    for group in &scene.bind_groups {
        if let BindGroupPlan::Transform { factors } = group {
            let words: Vec<Vec<u32>> = factors.iter().map(|m| m.words.clone()).collect();
            let expect = |tags: &[u32]| {
                tags.iter().map(|t| matrix(*t).words).collect::<Vec<Vec<u32>>>()
            };
            if words == expect(&[1]) {
                found[0] = true;
            } else if words == expect(&[1, 2]) {
                found[1] = true;
            } else if words == expect(&[1, 3]) {
                found[2] = true;
            } else if words == expect(&[1, 3, 4]) {
                found[3] = true;
            } else {
                panic!("unexpected factor list");
            }
        }
    }
    assert_eq!(found, vec![true, true, true, true]);
}

#[test]
fn unknown_semantics_resolve_but_stay_out_of_the_layout() {
    let (mut desc, mut buffers) = base_desc();
    buffers.push(vec![0u8; 64]);
    desc.views.push(BufferViewDesc { buffer: 1, offset: 0, length: 64, stride: None });
    desc.accessors.push(AccessorDesc {
        view: Some(1),
        offset: 0,
        count: 8,
        data_type: DataType::F32,
        dimensions: Dimensions::Vec2,
        normalized: false,
    });
    desc.meshes[0].primitives[0].attributes.push((Semantic::TexCoords(3), 1));
    let scene = Scene::from_gltf(&desc, &buffers).unwrap();
    let rec = &scene.render_datas[0];
    // The unrecognized stream is dropped from the layout but still
    // resolves: its buffer is allocated and it sets the draw count.
    assert_eq!(rec.layouts.len(), 1);
    assert_eq!(rec.used_views.len(), 1);
    assert_eq!(rec.draw_count, 8);
    assert!(scene.buffers.slots[1].is_some());
}

#[test]
fn unsupported_attribute_layouts_fail_the_load() {
    let (mut desc, buffers) = base_desc();
    desc.accessors[0].data_type = DataType::U8;
    let r = Scene::from_gltf(&desc, &buffers);
    assert!(matches!(r, Err(LoadError::UnsupportedVertexFormat)));
}

#[test]
fn index_widths_other_than_u16_and_u32_fail() {
    let (mut desc, mut buffers) = base_desc();
    buffers.push(vec![0u8; 12]);
    desc.views.push(BufferViewDesc { buffer: 1, offset: 0, length: 12, stride: None });
    desc.accessors.push(AccessorDesc {
        view: Some(1),
        offset: 0,
        count: 6,
        data_type: DataType::U8,
        dimensions: Dimensions::Scalar,
        normalized: false,
    });
    desc.meshes[0].primitives[0].indices = Some(1);
    let r = Scene::from_gltf(&desc, &buffers);
    assert!(matches!(r, Err(LoadError::UnsupportedIndexFormat)));
}

#[test]
fn index_accessors_need_a_view() {
    let (mut desc, buffers) = base_desc();
    desc.accessors.push(AccessorDesc {
        view: None,
        offset: 0,
        count: 6,
        data_type: DataType::U16,
        dimensions: Dimensions::Scalar,
        normalized: false,
    });
    desc.meshes[0].primitives[0].indices = Some(1);
    let r = Scene::from_gltf(&desc, &buffers);
    assert!(matches!(r, Err(LoadError::IndexWithoutView)));
}

#[test]
fn dangling_child_indices_are_malformed() {
    let (mut desc, buffers) = base_desc();
    desc.nodes[0].children = vec![7];
    let r = Scene::from_gltf(&desc, &buffers);
    assert!(matches!(r, Err(LoadError::MalformedScene)));
}

#[test]
fn a_node_with_two_parents_is_malformed() {
    let (mut desc, buffers) = base_desc();
    desc.nodes.push(NodeDesc { local_transform: matrix(2), children: vec![2], mesh: None });
    desc.nodes.push(NodeDesc { local_transform: matrix(3), children: vec![], mesh: None });
    desc.nodes[0].children = vec![1, 2];
    let r = Scene::from_gltf(&desc, &buffers);
    assert!(matches!(r, Err(LoadError::MalformedScene)));
}

#[test]
fn shared_views_share_one_allocation() {
    let (mut desc, buffers) = base_desc();
    // A second primitive on the same mesh reuses the same view.
    desc.meshes[0].primitives.push(PrimitiveDesc {
        attributes: vec![(Semantic::Normals, 0)],
        indices: None,
        material: None,
    });
    let scene = Scene::from_gltf(&desc, &buffers).unwrap();
    assert_eq!(scene.render_datas.len(), 2);
    assert_eq!(scene.buffers.slots.len(), 1);
    assert!(scene.buffers.slots[0].is_some());
    assert_eq!(scene.render_datas[0].used_views[0].view_index, 0);
    assert_eq!(scene.render_datas[1].used_views[0].view_index, 0);
}

#[test]
fn materials_fall_back_to_the_default_textures() {
    let (mut desc, buffers) = base_desc();
    desc.materials.push(MaterialDesc {
        base_color_factor: None,
        metallic_factor: None,
        roughness_factor: None,
        alpha_cutoff: None,
        base_color_texture: None,
        metallic_roughness_texture: None,
        normal_texture: Some(0),
    });
    desc.image_count = 1;
    desc.meshes[0].primitives[0].material = Some(0);
    let scene = Scene::from_gltf(&desc, &buffers).unwrap();
    let mgid = scene.render_datas[0].material_bind_group_id;
    match &scene.bind_groups[mgid] {
        BindGroupPlan::Material { group } => {
            assert_eq!(group.base_color, TextureSel::White);
            assert_eq!(group.metallic_roughness, TextureSel::White);
            assert_eq!(group.normal, TextureSel::Image(0));
            assert_eq!(group.data.metallic_factor, voxel_gi::material::UNIT_FACTOR_WORD);
            assert_eq!(group.data.alpha_cut_off, voxel_gi::material::ZERO_FACTOR_WORD);
        },
        _ => panic!("expected a material group"),
    }
}

#[test]
fn unreadable_buffer_ranges_surface_as_resource_errors() {
    let (mut desc, buffers) = base_desc();
    // The view claims more bytes than its source buffer holds.
    desc.views[0].length = 64;
    let r = Scene::from_gltf(&desc, &buffers);
    assert!(matches!(
        r,
        Err(LoadError::Resource(voxel_gi::ResourceError::RangeOutOfBounds))
    ));
}

#[test]
fn views_of_missing_buffers_surface_as_resource_errors() {
    let (mut desc, buffers) = base_desc();
    desc.views[0].buffer = 5;
    let r = Scene::from_gltf(&desc, &buffers);
    assert!(matches!(
        r,
        Err(LoadError::Resource(voxel_gi::ResourceError::BufferOutOfRange))
    ));
}
