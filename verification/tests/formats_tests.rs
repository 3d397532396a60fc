use voxel_gi::formats::{
    component_count, default_array_stride, index_format_for, type_size, vertex_format_for,
    DataType, Dimensions, IndexFormat, VertexFormat,
};
use voxel_gi::shader::{Attribute, Semantic};

#[test]
fn float_vertex_formats_ignore_normalization() {
    assert_eq!(
        vertex_format_for(false, Dimensions::Vec3, DataType::F32),
        Some(VertexFormat::Float32x3)
    );
    assert_eq!(
        vertex_format_for(true, Dimensions::Vec3, DataType::F32),
        Some(VertexFormat::Float32x3)
    );
    assert_eq!(
        vertex_format_for(false, Dimensions::Scalar, DataType::F32),
        Some(VertexFormat::Float32)
    );
    assert_eq!(
        vertex_format_for(true, Dimensions::Vec4, DataType::F32),
        Some(VertexFormat::Float32x4)
    );
}

#[test]
fn integer_vertex_formats_depend_on_normalization() {
    assert_eq!(
        vertex_format_for(false, Dimensions::Vec2, DataType::U8),
        Some(VertexFormat::Uint8x2)
    );
    assert_eq!(
        vertex_format_for(true, Dimensions::Vec2, DataType::U8),
        Some(VertexFormat::Unorm8x2)
    );
    assert_eq!(
        vertex_format_for(false, Dimensions::Vec4, DataType::I16),
        Some(VertexFormat::Sint16x4)
    );
    assert_eq!(
        vertex_format_for(true, Dimensions::Vec4, DataType::I16),
        Some(VertexFormat::Snorm16x4)
    );
    assert_eq!(
        vertex_format_for(false, Dimensions::Vec3, DataType::U32),
        Some(VertexFormat::Uint32x3)
    );
}

#[test]
fn unsupported_vertex_formats_are_none() {
    assert_eq!(vertex_format_for(false, Dimensions::Vec3, DataType::U8), None);
    assert_eq!(vertex_format_for(true, Dimensions::Scalar, DataType::U32), None);
    assert_eq!(vertex_format_for(false, Dimensions::Mat4, DataType::F32), None);
    assert_eq!(vertex_format_for(false, Dimensions::Vec3, DataType::I8), None);
}

#[test]
fn index_formats_are_u16_and_u32_only() {
    assert_eq!(index_format_for(DataType::U16), Some(IndexFormat::Uint16));
    assert_eq!(index_format_for(DataType::U32), Some(IndexFormat::Uint32));
    assert_eq!(index_format_for(DataType::U8), None);
    assert_eq!(index_format_for(DataType::I16), None);
    assert_eq!(index_format_for(DataType::F32), None);
}

#[test]
fn index_byte_sizes() {
    assert_eq!(IndexFormat::Uint16.byte_size(), 2);
    assert_eq!(IndexFormat::Uint32.byte_size(), 4);
}

#[test]
fn component_counts_and_type_sizes() {
    assert_eq!(component_count(Dimensions::Scalar), 1);
    assert_eq!(component_count(Dimensions::Vec3), 3);
    assert_eq!(component_count(Dimensions::Mat3), 9);
    assert_eq!(component_count(Dimensions::Mat4), 16);
    assert_eq!(type_size(DataType::I8), 1);
    assert_eq!(type_size(DataType::U16), 2);
    assert_eq!(type_size(DataType::F32), 4);
}

#[test]
fn default_stride_is_tightly_packed() {
    assert_eq!(default_array_stride(Dimensions::Vec3, DataType::F32), 12);
    assert_eq!(default_array_stride(Dimensions::Vec2, DataType::U16), 4);
    assert_eq!(default_array_stride(Dimensions::Mat4, DataType::F32), 64);
}

#[test]
fn semantics_map_to_attribute_slots() {
    assert_eq!(Attribute::from_semantic(&Semantic::Positions), Attribute::Positions);
    assert_eq!(Attribute::from_semantic(&Semantic::Normals), Attribute::Normals);
    assert_eq!(Attribute::from_semantic(&Semantic::Tangents), Attribute::Tangents);
    assert_eq!(Attribute::from_semantic(&Semantic::Colors(0)), Attribute::Colors);
    assert_eq!(Attribute::from_semantic(&Semantic::TexCoords(0)), Attribute::TexCoords);
    assert_eq!(Attribute::from_semantic(&Semantic::Joints(0)), Attribute::Joints);
    assert_eq!(Attribute::from_semantic(&Semantic::Weights(0)), Attribute::Weights);
    assert_eq!(Attribute::from_semantic(&Semantic::Colors(1)), Attribute::Unknown);
    assert_eq!(Attribute::from_semantic(&Semantic::TexCoords(2)), Attribute::Unknown);
}

#[test]
fn shader_locations_follow_slot_order() {
    assert_eq!(Attribute::Positions.shader_location(), 0);
    assert_eq!(Attribute::TexCoords.shader_location(), 1);
    assert_eq!(Attribute::Normals.shader_location(), 2);
    assert_eq!(Attribute::Tangents.shader_location(), 3);
    assert_eq!(Attribute::Joints.shader_location(), 4);
    assert_eq!(Attribute::Weights.shader_location(), 5);
    assert_eq!(Attribute::Colors.shader_location(), 6);
}
