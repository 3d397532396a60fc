//! The frame orchestrator: a fixed sequence of dependent passes.
//!
//! Every frame renders the scene in program order: the shadow pass
//! into a depth-only target, the voxelization pass into a throwaway
//! color target writing voxels as a side effect, the voxel mip
//! reduction, and finally the main shaded pass into the backbuffer.
//! Each pass consumes what the one before it committed, so the
//! sequence admits no reordering; the first three may run once at
//! load time when scene and lights are static.

use vstd::prelude::*;
use crate::registry::{spec_draw_commands_upto, DrawCommand};
use crate::scene::Scene;
use crate::voxel::{MipDispatch, VoxelTexture};

verus! {

/// One pass of a frame, with the commands that drive it.
#[derive(Debug)]
pub enum FramePassOp {
    /// Render the scene's "shadow" pipeline set into the shadow depth
    /// target, bound to the light-space camera group alone.
    ShadowPass { commands: Vec<DrawCommand> },
    /// Render the scene's "voxelization" pipeline set into a
    /// throwaway color target with writes disabled, bound to the
    /// camera group and the voxel-write group; fragments write mip
    /// level 0 of the voxel volume.
    VoxelizationPass { commands: Vec<DrawCommand> },
    /// Reduce the voxel mip chain, one dispatch per adjacent level
    /// pair, in increasing level order inside one compute pass.
    MipReduction { dispatches: Vec<MipDispatch> },
    /// Render the scene's "main" pipeline set into the backbuffer
    /// with depth testing, bound to the camera group and the diffuse
    /// group referencing the shadow map and the full voxel volume.
    MainPass { commands: Vec<DrawCommand> },
}

/// The names of the three scene passes a frame consumes, in order.
pub open spec fn spec_frame_pass_names() -> Seq<Seq<char>> {
    seq!["shadow"@, "voxelization"@, "main"@]
}

impl Scene {
    /// Whether the three pipeline sets a frame needs are registered,
    /// each with a start slot a draw command can express.
    pub open spec fn spec_frame_ready(&self) -> bool {
        forall|i: int|
            0 <= i < spec_frame_pass_names().len() ==> {
                let fi = self.spec_find_pass(#[trigger] spec_frame_pass_names()[i]);
                &&& fi is Some
                &&& self.pipeline_lists@[fi.unwrap()].1.bind_group_start_index < u32::MAX
            }
    }
}

/// The command list of one registered pass of the scene.
pub open spec fn spec_pass_commands(scene: Scene, name: Seq<char>) -> Seq<DrawCommand> {
    let fi = scene.spec_find_pass(name).unwrap();
    let start = scene.pipeline_lists@[fi].1.bind_group_start_index;
    spec_draw_commands_upto(scene.render_datas@, start, scene.render_datas@.len() as int)
}

/// The sequence of one frame: shadow, voxelization, mip reduction,
/// main -- in exactly that order, each pass carrying the commands of
/// its registered pipeline set, and the reduction carrying the
/// volume's full dispatch schedule.
pub fn frame_sequence(scene: &Scene, voxel: &VoxelTexture) -> (r: Vec<FramePassOp>)
    requires
        scene.wf(),
        voxel.wf(),
        scene.spec_frame_ready(),
    ensures
        r@.len() == 4,
        (match r@[0] {
            FramePassOp::ShadowPass { commands } => commands@ == spec_pass_commands(
                *scene,
                "shadow"@,
            ),
            _ => false,
        }),
        (match r@[1] {
            FramePassOp::VoxelizationPass { commands } => commands@ == spec_pass_commands(
                *scene,
                "voxelization"@,
            ),
            _ => false,
        }),
        (match r@[2] {
            FramePassOp::MipReduction { dispatches } => dispatches@.len() + 1
                == voxel.mip_level_count && forall|i: int|
                0 <= i < dispatches@.len() ==> (#[trigger] dispatches@[i]) == (MipDispatch {
                    pipeline: i as usize,
                    bind_group: i as usize,
                    workgroups_x: 1,
                    workgroups_y: 1,
                    workgroups_z: 1,
                }),
            _ => false,
        }),
        (match r@[3] {
            FramePassOp::MainPass { commands } => commands@ == spec_pass_commands(
                *scene,
                "main"@,
            ),
            _ => false,
        }),
{
    proof {
        assert(spec_frame_pass_names()[0] == "shadow"@);
        assert(spec_frame_pass_names()[1] == "voxelization"@);
        assert(spec_frame_pass_names()[2] == "main"@);
    }
    let shadow = scene.draw_pipelines("shadow");
    let voxelization = scene.draw_pipelines("voxelization");
    let mips = voxel.run_generate_mipmaps();
    let main = scene.draw_pipelines("main");
    let mut r: Vec<FramePassOp> = Vec::new();
    r.push(FramePassOp::ShadowPass { commands: shadow });
    r.push(FramePassOp::VoxelizationPass { commands: voxelization });
    r.push(FramePassOp::MipReduction { dispatches: mips });
    r.push(FramePassOp::MainPass { commands: main });
    r
}

} // verus!
