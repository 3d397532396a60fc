use voxel_gi::desc::{
    AccessorDesc, BufferViewDesc, MatrixData, MeshDesc, NodeDesc, PrimitiveDesc, SceneDesc,
};
use voxel_gi::formats::{DataType, Dimensions};
use voxel_gi::frame::{frame_sequence, FramePassOp};
use voxel_gi::registry::ColorTarget;
use voxel_gi::scene::Scene;
use voxel_gi::shader::{Semantic, Shader};
use voxel_gi::voxel::VoxelTexture;
use voxel_gi::LoadError;

fn small_scene() -> Scene {
    let desc = SceneDesc {
        nodes: vec![NodeDesc {
            local_transform: MatrixData { words: vec![0; 16] },
            children: vec![],
            mesh: Some(0),
        }],
        roots: vec![0],
        meshes: vec![MeshDesc {
            primitives: vec![PrimitiveDesc {
                attributes: vec![(Semantic::Positions, 0)],
                indices: None,
                material: None,
            }],
        }],
        accessors: vec![AccessorDesc {
            view: Some(0),
            offset: 0,
            count: 3,
            data_type: DataType::F32,
            dimensions: Dimensions::Vec3,
            normalized: false,
        }],
        views: vec![BufferViewDesc { buffer: 0, offset: 0, length: 36, stride: None }],
        materials: vec![],
        image_count: 0,
    };
    Scene::from_gltf(&desc, &vec![vec![0u8; 36]]).unwrap()
}

fn shader(module: usize) -> Shader {
    Shader { vs_entry: "vs_main".to_string(), fs_entry: "fs_main".to_string(), module }
}

#[test]
fn a_frame_runs_its_passes_in_the_fixed_order() {
    let mut scene = small_scene();
    let target = Some(ColorTarget { format: 1, blend: None, write_mask: 0 });
    scene.generate_pipeline(&shader(0), "shadow", &vec![0], &vec![], true, true);
    scene.generate_pipeline(&shader(1), "voxelization", &vec![1, 2], &vec![target], false, false);
    scene.generate_pipeline(&shader(2), "main", &vec![1, 3], &vec![target], true, true);
    let volume = VoxelTexture::new(512, 512, 512);
    let frame = frame_sequence(&scene, &volume);
    assert_eq!(frame.len(), 4);
    match &frame[0] {
        FramePassOp::ShadowPass { commands } => {
            assert_eq!(*commands, scene.draw_pipelines("shadow"));
        },
        _ => panic!("the first pass must render the shadow map"),
    }
    match &frame[1] {
        FramePassOp::VoxelizationPass { commands } => {
            assert_eq!(*commands, scene.draw_pipelines("voxelization"));
        },
        _ => panic!("the second pass must voxelize the scene"),
    }
    match &frame[2] {
        FramePassOp::MipReduction { dispatches } => {
            assert_eq!(dispatches.len(), 9);
        },
        _ => panic!("the third pass must reduce the mip chain"),
    }
    match &frame[3] {
        FramePassOp::MainPass { commands } => {
            assert_eq!(*commands, scene.draw_pipelines("main"));
        },
        _ => panic!("the last pass must shade into the backbuffer"),
    }
}

#[test]
fn load_error_messages_name_the_failure() {
    assert!(!LoadError::MalformedScene.message().is_empty());
    assert!(!LoadError::NoRenderableAttributes.message().is_empty());
    assert!(!LoadError::UnsupportedIndexFormat.message().is_empty());
    assert!(!LoadError::UnsupportedVertexFormat.message().is_empty());
    assert!(!LoadError::IndexWithoutView.message().is_empty());
}
