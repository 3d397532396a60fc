use voxel_gi::cache::{BufferUsage, ResourceCache};
use voxel_gi::desc::BufferViewDesc;
use voxel_gi::ResourceError;

fn one_view(buffer: usize, offset: usize, length: usize) -> Vec<BufferViewDesc> {
    vec![BufferViewDesc { buffer, offset, length, stride: None }]
}

#[test]
fn repeated_requests_return_the_identical_handle() {
    let views = one_view(0, 0, 8);
    let buffers = vec![(0u8..16).collect::<Vec<u8>>()];
    let mut cache = ResourceCache::new(1);
    let h1 = cache.get_or_create(&views, &buffers, 0, BufferUsage::Vertex).unwrap();
    let first = cache.slots[0].as_ref().unwrap().contents.clone();
    let h2 = cache.get_or_create(&views, &buffers, 0, BufferUsage::Vertex).unwrap();
    let h3 = cache.get_or_create(&views, &buffers, 0, BufferUsage::Index).unwrap();
    assert_eq!(h1, h2);
    assert_eq!(h1, h3);
    assert_eq!(cache.slots[0].as_ref().unwrap().contents, first);
    assert_eq!(cache.slots[0].as_ref().unwrap().usage, BufferUsage::Vertex);
}

#[test]
fn allocation_copies_exactly_the_padded_range() {
    let views = one_view(0, 2, 8);
    let buffers = vec![(0u8..16).collect::<Vec<u8>>()];
    let mut cache = ResourceCache::new(1);
    let h = cache.get_or_create(&views, &buffers, 0, BufferUsage::Vertex).unwrap();
    assert_eq!(h, 0);
    let plan = cache.slots[0].as_ref().unwrap();
    assert_eq!(plan.size, 8);
    assert_eq!(plan.contents, vec![2u8, 3, 4, 5, 6, 7, 8, 9]);
}

#[test]
fn allocation_size_rounds_up_to_four_bytes() {
    let views = one_view(0, 0, 5);
    let buffers = vec![(0u8..16).collect::<Vec<u8>>()];
    let mut cache = ResourceCache::new(1);
    cache.get_or_create(&views, &buffers, 0, BufferUsage::Index).unwrap();
    let plan = cache.slots[0].as_ref().unwrap();
    assert_eq!(plan.size, 8);
    assert_eq!(plan.contents, vec![0u8, 1, 2, 3, 4, 5, 6, 7]);
}

#[test]
fn out_of_range_buffer_index_fails() {
    let views = one_view(3, 0, 4);
    let buffers = vec![vec![0u8; 8]];
    let mut cache = ResourceCache::new(1);
    let r = cache.get_or_create(&views, &buffers, 0, BufferUsage::Vertex);
    assert_eq!(r, Err(ResourceError::BufferOutOfRange));
    assert!(cache.slots[0].is_none());
}

#[test]
fn range_beyond_the_buffer_fails() {
    let views = one_view(0, 6, 4);
    let buffers = vec![vec![0u8; 8]];
    let mut cache = ResourceCache::new(1);
    let r = cache.get_or_create(&views, &buffers, 0, BufferUsage::Vertex);
    assert_eq!(r, Err(ResourceError::RangeOutOfBounds));
}

#[test]
fn padding_can_push_the_range_beyond_the_buffer() {
    // The declared length fits, but the padded length does not.
    let views = one_view(0, 6, 1);
    let buffers = vec![vec![0u8; 8]];
    let mut cache = ResourceCache::new(1);
    let r = cache.get_or_create(&views, &buffers, 0, BufferUsage::Vertex);
    assert_eq!(r, Err(ResourceError::RangeOutOfBounds));
}

#[test]
fn error_messages_are_not_empty() {
    assert!(!ResourceError::BufferOutOfRange.message().is_empty());
    assert!(!ResourceError::RangeOutOfBounds.message().is_empty());
}
