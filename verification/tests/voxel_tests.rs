use voxel_gi::voxel::VoxelTexture;

#[test]
fn a_512_cube_has_ten_mip_levels_and_nine_dispatches() {
    let volume = VoxelTexture::new(512, 512, 512);
    assert_eq!(volume.mip_level_count, 10);
    let dispatches = volume.run_generate_mipmaps();
    assert_eq!(dispatches.len(), 9);
    for (i, d) in dispatches.iter().enumerate() {
        assert_eq!(d.pipeline, i);
        assert_eq!(d.bind_group, i);
        assert_eq!(volume.bind_groups[d.bind_group].read_level, i as u32);
        assert_eq!(volume.bind_groups[d.bind_group].write_level, i as u32 + 1);
        assert_eq!((d.workgroups_x, d.workgroups_y, d.workgroups_z), (1, 1, 1));
    }
}

#[test]
fn each_step_reads_what_the_previous_step_wrote() {
    let volume = VoxelTexture::new(256, 256, 256);
    assert_eq!(volume.mip_level_count, 9);
    for i in 1..volume.bind_groups.len() {
        assert_eq!(volume.bind_groups[i].read_level, volume.bind_groups[i - 1].write_level);
    }
}

#[test]
fn the_level_count_follows_the_largest_dimension() {
    assert_eq!(VoxelTexture::new(1, 1, 1).mip_level_count, 1);
    assert_eq!(VoxelTexture::new(2, 1, 1).mip_level_count, 2);
    assert_eq!(VoxelTexture::new(1, 3, 1).mip_level_count, 2);
    assert_eq!(VoxelTexture::new(64, 512, 16).mip_level_count, 10);
    assert_eq!(VoxelTexture::new(1000, 1, 1).mip_level_count, 10);
    assert_eq!(VoxelTexture::new(1024, 1, 1).mip_level_count, 11);
}

#[test]
fn a_single_level_volume_needs_no_reduction() {
    let volume = VoxelTexture::new(1, 1, 1);
    assert_eq!(volume.run_generate_mipmaps().len(), 0);
    assert_eq!(volume.bind_groups.len(), 0);
    assert_eq!(volume.get_mip_0(), 0);
}
