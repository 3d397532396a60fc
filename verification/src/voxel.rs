//! The voxel volume and its mip-chain reduction schedule.
//!
//! A volume of base extent `w x h x d` has one mip level per bit of
//! its largest dimension: level 0 is the base resolution and each
//! further level halves every dimension.  The chain is reduced by
//! `levels - 1` compute dispatches, one per adjacent level pair, each
//! reading level `i` and writing level `i + 1`.  The dispatches must
//! run in increasing level order inside one compute pass, because each
//! one consumes what the previous one wrote; the schedule returned
//! here lists them in exactly that order.

use vstd::prelude::*;

verus! {

/// The bit width of `n`: zero for zero, otherwise one more than the
/// bit width of `n / 2`.  For `n >= 1` this is `floor(log2(n)) + 1`.
pub open spec fn spec_bit_width(n: nat) -> nat
    decreases n,
{
    if n == 0 {
        0
    } else {
        1 + spec_bit_width(n / 2)
    }
}

/// The larger of two 32-bit values.
pub open spec fn spec_max_u32(a: u32, b: u32) -> u32 {
    if a >= b {
        a
    } else {
        b
    }
}

/// Number of mip levels of a volume with the given base extent: the
/// bit width of the largest dimension.
pub open spec fn spec_mip_level_count(width: u32, height: u32, depth: u32) -> nat {
    spec_bit_width(spec_max_u32(width, spec_max_u32(height, depth)) as nat)
}

/// Relies on wgpu's `Extent3d::max_mips` for a 3-D texture: it
/// returns `32 - leading_zeros(max(width, height, depth))`, which is
/// the bit width of the largest dimension.
#[verifier::external_body]
fn max_mips_3d(width: u32, height: u32, depth: u32) -> (r: u32)
    ensures
        r as nat == spec_mip_level_count(width, height, depth),
{
    wgpu::Extent3d { width, height, depth_or_array_layers: depth }.max_mips(
        wgpu::TextureDimension::D3,
    )
}

/// The binding of one reduction step: a read view of the finer level
/// and a write view of the coarser one.
#[derive(Debug, Clone, Copy, PartialEq, Eq, Structural)]
pub struct MipBindGroup {
    /// Level read by the reduction shader.
    pub read_level: u32,
    /// Level written by the reduction shader.
    pub write_level: u32,
}

/// One compute dispatch of the reduction schedule.
#[derive(Debug, Clone, Copy, PartialEq, Eq, Structural)]
pub struct MipDispatch {
    /// Index of the compute pipeline to bind.
    pub pipeline: usize,
    /// Index of the level-pair binding group to bind.
    pub bind_group: usize,
    /// Workgroup counts of the dispatch; the reduction shader covers
    /// the whole destination level from a single workgroup.
    pub workgroups_x: u32,
    pub workgroups_y: u32,
    pub workgroups_z: u32,
}

/// The planned voxel volume: a single 3-D texture with a full mip
/// chain, one read/write view per level, and one compute pipeline and
/// binding group per adjacent level pair.
#[derive(Debug)]
pub struct VoxelTexture {
    /// Base extent of the volume.
    pub width: u32,
    pub height: u32,
    pub depth: u32,
    /// Number of mip levels, including the base level.
    pub mip_level_count: u32,
    /// One binding group per adjacent level pair, in level order.
    pub bind_groups: Vec<MipBindGroup>,
}

impl VoxelTexture {
    /// A well-formed volume plan: the level count matches the extent,
    /// and level pair `i` reads level `i` and writes level `i + 1`.
    pub open spec fn wf(&self) -> bool {
        &&& self.mip_level_count as nat == spec_mip_level_count(
            self.width,
            self.height,
            self.depth,
        )
        &&& self.mip_level_count >= 1
        &&& self.bind_groups@.len() + 1 == self.mip_level_count
        &&& forall|i: int|
            0 <= i < self.bind_groups@.len() ==> (#[trigger] self.bind_groups@[i]).read_level == i
                && self.bind_groups@[i].write_level == i + 1
    }

    /// Plans the volume for a non-empty base extent: a full mip chain
    /// down to 1x1x1, with one level-pair binding group per reduction
    /// step.
    pub fn new(width: u32, height: u32, depth: u32) -> (r: VoxelTexture)
        requires
            width >= 1,
            height >= 1,
            depth >= 1,
        ensures
            r.wf(),
            r.width == width,
            r.height == height,
            r.depth == depth,
    {
        let mip_level_count = max_mips_3d(width, height, depth);
        proof {
            // A non-empty extent has a non-zero largest dimension, so
            // at least the base level exists.
            assert(spec_max_u32(width, spec_max_u32(height, depth)) >= 1);
            assert(spec_bit_width(spec_max_u32(width, spec_max_u32(height, depth)) as nat) >= 1);
        }
        let mut bind_groups: Vec<MipBindGroup> = Vec::new();
        let mut i: u32 = 0;
        while i < mip_level_count - 1
            invariant
                mip_level_count >= 1,
                i <= mip_level_count - 1,
                bind_groups@.len() == i,
                forall|j: int|
                    0 <= j < i ==> (#[trigger] bind_groups@[j]).read_level == j
                        && bind_groups@[j].write_level == j + 1,
            decreases mip_level_count - 1 - i,
        {
            bind_groups.push(MipBindGroup { read_level: i, write_level: i + 1 });
            i = i + 1;
        }
        VoxelTexture { width, height, depth, mip_level_count, bind_groups }
    }

    /// The reduction schedule: `levels - 1` dispatches in strictly
    /// increasing level order, dispatch `i` binding pipeline `i` and
    /// level pair `i` (read level `i`, write level `i + 1`), each
    /// issuing exactly one workgroup.  The whole schedule belongs in
    /// one compute pass scope, in the order given.
    pub fn run_generate_mipmaps(&self) -> (r: Vec<MipDispatch>)
        requires
            self.wf(),
        ensures
            r@.len() + 1 == self.mip_level_count,
            forall|i: int|
                0 <= i < r@.len() ==> (#[trigger] r@[i]) == (MipDispatch {
                    pipeline: i as usize,
                    bind_group: i as usize,
                    workgroups_x: 1,
                    workgroups_y: 1,
                    workgroups_z: 1,
                }),
    {
        let mut dispatches: Vec<MipDispatch> = Vec::new();
        let mut i: usize = 0;
        let steps = (self.mip_level_count - 1) as usize;
        while i < steps
            invariant
                dispatches@.len() == i,
                i <= steps,
                forall|j: int|
                    0 <= j < i ==> (#[trigger] dispatches@[j]) == (MipDispatch {
                        pipeline: j as usize,
                        bind_group: j as usize,
                        workgroups_x: 1,
                        workgroups_y: 1,
                        workgroups_z: 1,
                    }),
            decreases steps - i,
        {
            dispatches.push(
                MipDispatch {
                    pipeline: i,
                    bind_group: i,
                    workgroups_x: 1,
                    workgroups_y: 1,
                    workgroups_z: 1,
                },
            );
            i = i + 1;
        }
        dispatches
    }

    /// The read view of the base level, where voxelization writes.
    pub fn get_mip_0(&self) -> (r: u32)
        ensures
            r == 0,
    {
        0
    }
}

/// The mip chain of a well-formed volume is complete and dependent:
/// there is one reduction step per adjacent level pair, and step `i`
/// reads exactly the level that step `i - 1` wrote, so the steps must
/// execute in increasing order.
pub proof fn lemma_mip_chain_structure(v: VoxelTexture)
    requires
        v.wf(),
    ensures
        v.bind_groups@.len() + 1 == v.mip_level_count,
        forall|i: int|
            0 <= i < v.bind_groups@.len() ==> (#[trigger] v.bind_groups@[i]).read_level == i
                && v.bind_groups@[i].write_level == i + 1,
        forall|i: int|
            1 <= i < v.bind_groups@.len() ==> (#[trigger] v.bind_groups@[i]).read_level
                == v.bind_groups@[i - 1].write_level,
{
}

} // verus!
