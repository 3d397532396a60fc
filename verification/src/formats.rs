//! Accessor component layouts and their vertex/index formats.
//!
//! A vertex attribute stream declares a scalar data type, a dimension
//! count and a normalization flag; only some combinations have a GPU
//! vertex format.  Index streams accept 16-bit and 32-bit unsigned
//! widths only.

use vstd::prelude::*;

verus! {

/// Scalar component type declared by an accessor.
#[derive(Debug, Clone, Copy, PartialEq, Eq, Structural)]
pub enum DataType {
    I8,
    U8,
    I16,
    U16,
    U32,
    F32,
}

/// Element shape declared by an accessor.
#[derive(Debug, Clone, Copy, PartialEq, Eq, Structural)]
pub enum Dimensions {
    Scalar,
    Vec2,
    Vec3,
    Vec4,
    Mat2,
    Mat3,
    Mat4,
}

/// Vertex format of one attribute stream, as the GPU understands it.
#[derive(Debug, Clone, Copy, PartialEq, Eq, Structural)]
pub enum VertexFormat {
    Uint8x2,
    Uint8x4,
    Sint8x2,
    Sint8x4,
    Unorm8x2,
    Unorm8x4,
    Snorm8x2,
    Snorm8x4,
    Uint16x2,
    Uint16x4,
    Sint16x2,
    Sint16x4,
    Unorm16x2,
    Unorm16x4,
    Snorm16x2,
    Snorm16x4,
    Float32,
    Float32x2,
    Float32x3,
    Float32x4,
    Uint32,
    Uint32x2,
    Uint32x3,
    Uint32x4,
}

/// Index format of an index stream.
#[derive(Debug, Clone, Copy, PartialEq, Eq, Structural)]
pub enum IndexFormat {
    Uint16,
    Uint32,
}

/// The vertex format for a declared combination of normalization,
/// dimensions and data type, if the combination is supported.
pub open spec fn spec_vertex_format(
    normalized: bool,
    dim: Dimensions,
    ty: DataType,
) -> Option<VertexFormat> {
    match (normalized, dim, ty) {
        (false, Dimensions::Vec2, DataType::U8) => Some(VertexFormat::Uint8x2),
        (false, Dimensions::Vec4, DataType::U8) => Some(VertexFormat::Uint8x4),
        (false, Dimensions::Vec2, DataType::I8) => Some(VertexFormat::Sint8x2),
        (false, Dimensions::Vec4, DataType::I8) => Some(VertexFormat::Sint8x4),
        (true, Dimensions::Vec2, DataType::U8) => Some(VertexFormat::Unorm8x2),
        (true, Dimensions::Vec4, DataType::U8) => Some(VertexFormat::Unorm8x4),
        (true, Dimensions::Vec2, DataType::I8) => Some(VertexFormat::Snorm8x2),
        (true, Dimensions::Vec4, DataType::I8) => Some(VertexFormat::Snorm8x4),
        (false, Dimensions::Vec2, DataType::U16) => Some(VertexFormat::Uint16x2),
        (false, Dimensions::Vec4, DataType::U16) => Some(VertexFormat::Uint16x4),
        (false, Dimensions::Vec2, DataType::I16) => Some(VertexFormat::Sint16x2),
        (false, Dimensions::Vec4, DataType::I16) => Some(VertexFormat::Sint16x4),
        (true, Dimensions::Vec2, DataType::U16) => Some(VertexFormat::Unorm16x2),
        (true, Dimensions::Vec4, DataType::U16) => Some(VertexFormat::Unorm16x4),
        (true, Dimensions::Vec2, DataType::I16) => Some(VertexFormat::Snorm16x2),
        (true, Dimensions::Vec4, DataType::I16) => Some(VertexFormat::Snorm16x4),
        (_, Dimensions::Scalar, DataType::F32) => Some(VertexFormat::Float32),
        (_, Dimensions::Vec2, DataType::F32) => Some(VertexFormat::Float32x2),
        (_, Dimensions::Vec3, DataType::F32) => Some(VertexFormat::Float32x3),
        (_, Dimensions::Vec4, DataType::F32) => Some(VertexFormat::Float32x4),
        (false, Dimensions::Scalar, DataType::U32) => Some(VertexFormat::Uint32),
        (false, Dimensions::Vec2, DataType::U32) => Some(VertexFormat::Uint32x2),
        (false, Dimensions::Vec3, DataType::U32) => Some(VertexFormat::Uint32x3),
        (false, Dimensions::Vec4, DataType::U32) => Some(VertexFormat::Uint32x4),
        _ => None,
    }
}

/// Maps a declared attribute layout to its vertex format.
pub fn vertex_format_for(normalized: bool, dim: Dimensions, ty: DataType) -> (r: Option<
    VertexFormat,
>)
    ensures
        r == spec_vertex_format(normalized, dim, ty),
{
    match (normalized, dim, ty) {
        (false, Dimensions::Vec2, DataType::U8) => Some(VertexFormat::Uint8x2),
        (false, Dimensions::Vec4, DataType::U8) => Some(VertexFormat::Uint8x4),
        (false, Dimensions::Vec2, DataType::I8) => Some(VertexFormat::Sint8x2),
        (false, Dimensions::Vec4, DataType::I8) => Some(VertexFormat::Sint8x4),
        (true, Dimensions::Vec2, DataType::U8) => Some(VertexFormat::Unorm8x2),
        (true, Dimensions::Vec4, DataType::U8) => Some(VertexFormat::Unorm8x4),
        (true, Dimensions::Vec2, DataType::I8) => Some(VertexFormat::Snorm8x2),
        (true, Dimensions::Vec4, DataType::I8) => Some(VertexFormat::Snorm8x4),
        (false, Dimensions::Vec2, DataType::U16) => Some(VertexFormat::Uint16x2),
        (false, Dimensions::Vec4, DataType::U16) => Some(VertexFormat::Uint16x4),
        (false, Dimensions::Vec2, DataType::I16) => Some(VertexFormat::Sint16x2),
        (false, Dimensions::Vec4, DataType::I16) => Some(VertexFormat::Sint16x4),
        (true, Dimensions::Vec2, DataType::U16) => Some(VertexFormat::Unorm16x2),
        (true, Dimensions::Vec4, DataType::U16) => Some(VertexFormat::Unorm16x4),
        (true, Dimensions::Vec2, DataType::I16) => Some(VertexFormat::Snorm16x2),
        (true, Dimensions::Vec4, DataType::I16) => Some(VertexFormat::Snorm16x4),
        (_, Dimensions::Scalar, DataType::F32) => Some(VertexFormat::Float32),
        (_, Dimensions::Vec2, DataType::F32) => Some(VertexFormat::Float32x2),
        (_, Dimensions::Vec3, DataType::F32) => Some(VertexFormat::Float32x3),
        (_, Dimensions::Vec4, DataType::F32) => Some(VertexFormat::Float32x4),
        (false, Dimensions::Scalar, DataType::U32) => Some(VertexFormat::Uint32),
        (false, Dimensions::Vec2, DataType::U32) => Some(VertexFormat::Uint32x2),
        (false, Dimensions::Vec3, DataType::U32) => Some(VertexFormat::Uint32x3),
        (false, Dimensions::Vec4, DataType::U32) => Some(VertexFormat::Uint32x4),
        _ => None,
    }
}

/// The index format for a declared data type: only 16-bit and 32-bit
/// unsigned indices are renderable.
pub open spec fn spec_index_format(ty: DataType) -> Option<IndexFormat> {
    match ty {
        DataType::U16 => Some(IndexFormat::Uint16),
        DataType::U32 => Some(IndexFormat::Uint32),
        _ => None,
    }
}

/// Maps a declared index data type to its index format.
pub fn index_format_for(ty: DataType) -> (r: Option<IndexFormat>)
    ensures
        r == spec_index_format(ty),
{
    match ty {
        DataType::U16 => Some(IndexFormat::Uint16),
        DataType::U32 => Some(IndexFormat::Uint32),
        _ => None,
    }
}

impl IndexFormat {
    /// Width in bytes of one index of this format.
    pub open spec fn spec_byte_size(self) -> u64 {
        match self {
            IndexFormat::Uint16 => 2,
            IndexFormat::Uint32 => 4,
        }
    }

    /// Width in bytes of one index of this format.
    pub fn byte_size(&self) -> (r: u64)
        ensures
            r == self.spec_byte_size(),
    {
        match self {
            IndexFormat::Uint16 => 2,
            IndexFormat::Uint32 => 4,
        }
    }
}

/// Number of scalar components in one element of the given shape.
pub open spec fn spec_component_count(dim: Dimensions) -> usize {
    match dim {
        Dimensions::Scalar => 1,
        Dimensions::Vec2 => 2,
        Dimensions::Vec3 => 3,
        Dimensions::Vec4 => 4,
        Dimensions::Mat2 => 4,
        Dimensions::Mat3 => 9,
        Dimensions::Mat4 => 16,
    }
}

/// Number of scalar components in one element of the given shape.
pub fn component_count(dim: Dimensions) -> (r: usize)
    ensures
        r == spec_component_count(dim),
{
    match dim {
        Dimensions::Scalar => 1,
        Dimensions::Vec2 => 2,
        Dimensions::Vec3 => 3,
        Dimensions::Vec4 => 4,
        Dimensions::Mat2 => 4,
        Dimensions::Mat3 => 9,
        Dimensions::Mat4 => 16,
    }
}

/// Size in bytes of one scalar component of the given type.
pub open spec fn spec_type_size(ty: DataType) -> usize {
    match ty {
        DataType::I8 => 1,
        DataType::U8 => 1,
        DataType::I16 => 2,
        DataType::U16 => 2,
        DataType::U32 => 4,
        DataType::F32 => 4,
    }
}

/// Size in bytes of one scalar component of the given type.
pub fn type_size(ty: DataType) -> (r: usize)
    ensures
        r == spec_type_size(ty),
{
    match ty {
        DataType::I8 => 1,
        DataType::U8 => 1,
        DataType::I16 => 2,
        DataType::U16 => 2,
        DataType::U32 => 4,
        DataType::F32 => 4,
    }
}

/// Byte stride of a tightly packed stream of elements with the given
/// shape and component type; used when a view declares no stride.
pub open spec fn spec_default_array_stride(dim: Dimensions, ty: DataType) -> int {
    spec_component_count(dim) * spec_type_size(ty)
}

/// Byte stride of a tightly packed stream of elements with the given
/// shape and component type.
pub fn default_array_stride(dim: Dimensions, ty: DataType) -> (r: usize)
    ensures
        r == spec_default_array_stride(dim, ty),
{
    component_count(dim) * type_size(ty)
}

} // verus!
