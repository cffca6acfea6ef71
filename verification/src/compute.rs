//! The compute ray-cast stage: what it records for a frame slot, how its
//! output image changes hands between queue families, and when the world
//! data has to be copied to the GPU.
use vstd::prelude::*;
use vstd::arithmetic::div_mod::lemma_fundamental_div_mod;
use vstd::arithmetic::div_mod::lemma_fundamental_div_mod_converse;
use crate::world::World;
use crate::world::WorldView;
use crate::world::lemma_array_lengths;

verus! {

/// Workgroup size of the ray-cast shader along x.
pub const LOCAL_SIZE_X: u32 = 32;

/// Workgroup size of the ray-cast shader along y.
pub const LOCAL_SIZE_Y: u32 = 1;

/// The queue family index that stands for "no ownership transfer".
pub const QUEUE_FAMILY_IGNORED: u32 = 0xffff_ffff;

/// Capacity, in words, of the GPU buffer that holds the run counts.
pub const SIZES_BUFFER_LEN: u32 = 65536;

/// Capacity, in words, of the GPU buffer that holds the spans.
pub const SPANS_BUFFER_LEN: u32 = 16777216;

/// A kind of memory access a barrier orders.
#[derive(Clone, Copy, Debug, PartialEq, Eq, Structural)]
pub enum Access {
    Nothing,
    ShaderRead,
    ShaderWrite,
    TransferWrite,
}

/// A pipeline stage a barrier or a semaphore wait refers to.
#[derive(Clone, Copy, Debug, PartialEq, Eq, Structural)]
pub enum Stage {
    Transfer,
    ComputeShader,
    FragmentShader,
    ColorAttachmentOutput,
    BottomOfPipe,
}

/// A barrier over all memory.
#[derive(Clone, Copy, Debug, PartialEq, Eq, Structural)]
pub struct MemoryBarrier {
    pub src_access: Access,
    pub dst_access: Access,
    pub src_stage: Stage,
    pub dst_stage: Stage,
}

/// A barrier on the color output image of one frame slot. The image stays
/// in the general layout; the families say who owns it before and after.
#[derive(Clone, Copy, Debug, PartialEq, Eq, Structural)]
pub struct ImageBarrier {
    pub slot: usize,
    pub src_family: u32,
    pub dst_family: u32,
    pub src_access: Access,
    pub dst_access: Access,
    pub src_stage: Stage,
    pub dst_stage: Stage,
}

/// One command of the compute command buffer.
#[derive(Clone, Copy, Debug, PartialEq, Eq, Structural)]
pub enum ComputeCommand {
    ResetBuffer,
    Begin,
    BindPipeline,
    BindDescriptorSet { slot: usize },
    ClearColor { slot: usize },
    ClearDepth { slot: usize },
    Barrier { barrier: MemoryBarrier },
    PushConstants,
    Dispatch { x: u32, y: u32, z: u32 },
    Release { transfer: ImageBarrier },
    End,
}

/// The kind of resource a descriptor binding refers to.
#[derive(Clone, Copy, Debug, PartialEq, Eq, Structural)]
pub enum BindingKind {
    StorageImage,
    StorageBuffer,
}

/// The least number of groups of `group` items that hold `items` items.
pub open spec fn ceil_div(items: int, group: int) -> int {
    (items + group - 1) / group
}

/// Number of workgroups of size `local` needed for `extent` invocations.
pub fn group_count(extent: u32, local: u32) -> (r: u32)
    requires
        local >= 1,
    ensures
        r == ceil_div(extent as int, local as int),
        r * local >= extent,
        extent > 0 ==> (r - 1) * local < extent,
{
    let q = extent / local;
    let m = extent % local;
    proof {
        lemma_fundamental_div_mod(extent as int, local as int);
        assert(local * q == q * local) by (nonlinear_arith);
        if m == 0 {
            lemma_fundamental_div_mod_converse(extent + local - 1, local as int, q as int, local - 1);
        } else {
            assert((q + 1) * local == q * local + local) by (nonlinear_arith);
            lemma_fundamental_div_mod_converse(extent + local - 1, local as int, q + 1, m - 1);
        }
        assert((q - 1) * local == q * local - local) by (nonlinear_arith);
        assert(q * local >= q) by (nonlinear_arith)
            requires
                local >= 1,
                q >= 0,
        ;
    }
    if m == 0 {
        q
    } else {
        q + 1
    }
}

/// The clear of the output images must be complete before the shader
/// writes to them.
pub open spec fn clear_barrier() -> MemoryBarrier {
    MemoryBarrier {
        src_access: Access::TransferWrite,
        dst_access: Access::ShaderWrite,
        src_stage: Stage::Transfer,
        dst_stage: Stage::ComputeShader,
    }
}

/// The compute stage as contracts see it.
pub struct ComputeView {
    pub slots: int,
    pub width: u32,
    pub height: u32,
    pub local_size_x: u32,
    pub local_size_y: u32,
    pub graphics_family: u32,
    pub compute_family: u32,
    pub clear_color: bool,
    pub push_consts: bool,
    /// For every slot, whether submitted compute work may still run.
    pub in_flight: Seq<bool>,
}

impl ComputeView {
    pub open spec fn wf(self) -> bool {
        &&& 0 <= self.slots == self.in_flight.len()
        &&& self.local_size_x >= 1
        &&& self.local_size_y >= 1
    }

    /// Whether the compute and the graphics queue belong to different
    /// families, so that the output image changes its owner every frame.
    pub open spec fn transfers_ownership(self) -> bool {
        self.compute_family != self.graphics_family
    }

    /// Whether compute work of any slot may still run.
    pub open spec fn busy(self) -> bool {
        exists|i: int| 0 <= i < self.in_flight.len() && self.in_flight[i]
    }

    /// The barrier with which the compute queue gives up the color image.
    pub open spec fn release_barrier(self, slot: usize) -> ImageBarrier {
        ImageBarrier {
            slot,
            src_family: self.compute_family,
            dst_family: self.graphics_family,
            src_access: Access::ShaderWrite,
            dst_access: Access::Nothing,
            src_stage: Stage::ComputeShader,
            dst_stage: Stage::BottomOfPipe,
        }
    }

    /// The barrier with which the graphics queue makes the shader's writes
    /// visible to its fragment shader and, between different families,
    /// takes the color image over.
    pub open spec fn acquire_barrier(self, slot: usize) -> ImageBarrier {
        ImageBarrier {
            slot,
            src_family: if self.transfers_ownership() {
                self.compute_family
            } else {
                QUEUE_FAMILY_IGNORED
            },
            dst_family: if self.transfers_ownership() {
                self.graphics_family
            } else {
                QUEUE_FAMILY_IGNORED
            },
            src_access: Access::ShaderWrite,
            dst_access: Access::ShaderRead,
            src_stage: Stage::ComputeShader,
            dst_stage: Stage::FragmentShader,
        }
    }

    /// The commands of one frame of the compute stage, in order.
    pub open spec fn commands(self, slot: usize) -> Seq<ComputeCommand> {
        seq![
            ComputeCommand::ResetBuffer,
            ComputeCommand::Begin,
            ComputeCommand::BindPipeline,
            ComputeCommand::BindDescriptorSet { slot },
        ] + (if self.clear_color {
            seq![ComputeCommand::ClearColor { slot }]
        } else {
            seq![]
        }) + seq![
            ComputeCommand::ClearDepth { slot },
            ComputeCommand::Barrier { barrier: clear_barrier() },
        ] + (if self.push_consts {
            seq![ComputeCommand::PushConstants]
        } else {
            seq![]
        }) + seq![
            ComputeCommand::Dispatch {
                x: ceil_div(self.width as int, self.local_size_x as int) as u32,
                y: ceil_div(self.height as int, self.local_size_y as int) as u32,
                z: 1,
            },
        ] + (if self.transfers_ownership() {
            seq![ComputeCommand::Release { transfer: self.release_barrier(slot) }]
        } else {
            seq![]
        }) + seq![ComputeCommand::End]
    }
}

/// What `update_data` found: whether the world arrays are to be copied into
/// the shared GPU buffers, and whether that copy races with compute work
/// that may still read them.
#[derive(Clone, Copy, Debug, PartialEq, Eq, Structural)]
pub struct UploadPlan {
    pub upload: bool,
    pub hazard: bool,
}

/// The compute ray-cast stage of a renderer.
pub struct ComputeTarget {
    width: u32,
    height: u32,
    local_size_x: u32,
    local_size_y: u32,
    graphics_queue_idx: u32,
    compute_queue_idx: u32,
    clear_color: bool,
    push_consts: bool,
    in_flight: Vec<bool>,
}

impl View for ComputeTarget {
    type V = ComputeView;

    closed spec fn view(&self) -> ComputeView {
        ComputeView {
            slots: self.in_flight.len() as int,
            width: self.width,
            height: self.height,
            local_size_x: self.local_size_x,
            local_size_y: self.local_size_y,
            graphics_family: self.graphics_queue_idx,
            compute_family: self.compute_queue_idx,
            clear_color: self.clear_color,
            push_consts: self.push_consts,
            in_flight: self.in_flight@,
        }
    }
}

impl ComputeTarget {
    /// A stage that renders `width` by `height` pixels with workgroups of
    /// the given size, over `per_frame_copies` frame slots. No work is in
    /// flight, and the color image is cleared every frame.
    pub fn new(
        graphics_queue_idx: u32,
        compute_queue_idx: u32,
        width: u32,
        height: u32,
        local_size_x: u32,
        local_size_y: u32,
        push_consts: bool,
        per_frame_copies: usize,
    ) -> (r: Self)
        requires
            local_size_x >= 1,
            local_size_y >= 1,
        ensures
            r@.wf(),
            r@ == (ComputeView {
                slots: per_frame_copies as int,
                width,
                height,
                local_size_x,
                local_size_y,
                graphics_family: graphics_queue_idx,
                compute_family: compute_queue_idx,
                clear_color: true,
                push_consts,
                in_flight: Seq::new(per_frame_copies as nat, |i: int| false),
            }),
    {
        let in_flight = vec![false; per_frame_copies];
        let r = Self {
            width,
            height,
            local_size_x,
            local_size_y,
            graphics_queue_idx,
            compute_queue_idx,
            clear_color: true,
            push_consts,
            in_flight,
        };
        proof {
            assert(r@.in_flight =~= Seq::new(per_frame_copies as nat, |i: int| false));
        }
        r
    }

    /// Takes over a new extent of the output images: from now on the
    /// dispatch covers it. The slots and their work are left alone.
    pub fn handle_resize(&mut self, width: u32, height: u32)
        ensures
            final(self)@ == (ComputeView { width, height, ..old(self)@ }),
    {
        self.width = width;
        self.height = height;
    }

    /// The slot's fence was waited for and reset: its work is over.
    pub fn wait(&mut self, current_frame: usize)
        requires
            old(self)@.wf(),
            current_frame < old(self)@.slots,
        ensures
            final(self)@ == (ComputeView {
                in_flight: old(self)@.in_flight.update(current_frame as int, false),
                ..old(self)@
            }),
            final(self)@.wf(),
    {
        self.in_flight[current_frame] = false;
    }

    /// The commands to record for the slot, in order: reset and begin, bind
    /// pipeline and descriptor set, clear the output images, the barrier
    /// between clear and shader writes, push constants, the dispatch, the
    /// release of the color image where the queue families differ, end.
    pub fn record_compute_commands(&self, current_frame: usize) -> (r: Vec<ComputeCommand>)
        requires
            self@.wf(),
            current_frame < self@.slots,
            !self@.in_flight[current_frame as int],
        ensures
            r@ == self@.commands(current_frame),
    {
        let slot = current_frame;
        let mut r: Vec<ComputeCommand> = Vec::new();
        r.push(ComputeCommand::ResetBuffer);
        r.push(ComputeCommand::Begin);
        r.push(ComputeCommand::BindPipeline);
        r.push(ComputeCommand::BindDescriptorSet { slot });
        if self.clear_color {
            r.push(ComputeCommand::ClearColor { slot });
        }
        r.push(ComputeCommand::ClearDepth { slot });
        r.push(ComputeCommand::Barrier { barrier: Self::clear_color_barrier() });
        if self.push_consts {
            r.push(ComputeCommand::PushConstants);
        }
        let x = group_count(self.width, self.local_size_x);
        let y = group_count(self.height, self.local_size_y);
        r.push(ComputeCommand::Dispatch { x, y, z: 1 });
        match self.release_barrier_for_compute_queue(slot) {
            Some(transfer) => {
                r.push(ComputeCommand::Release { transfer });
            },
            None => {},
        }
        r.push(ComputeCommand::End);
        proof {
            assert(r@ =~= self@.commands(current_frame));
        }
        r
    }

    fn clear_color_barrier() -> (r: MemoryBarrier)
        ensures
            r == clear_barrier(),
    {
        MemoryBarrier {
            src_access: Access::TransferWrite,
            dst_access: Access::ShaderWrite,
            src_stage: Stage::Transfer,
            dst_stage: Stage::ComputeShader,
        }
    }

    /// The slot's commands were submitted: its work is in flight until its
    /// fence is waited for.
    pub fn submit(&mut self, current_frame: usize)
        requires
            old(self)@.wf(),
            current_frame < old(self)@.slots,
        ensures
            final(self)@ == (ComputeView {
                in_flight: old(self)@.in_flight.update(current_frame as int, true),
                ..old(self)@
            }),
            final(self)@.wf(),
    {
        self.in_flight[current_frame] = true;
    }

    /// The barrier that hands the slot's color image to the graphics queue
    /// family, if that is another family than the compute queue's.
    pub fn release_barrier_for_compute_queue(&self, current_frame: usize) -> (r: Option<
        ImageBarrier,
    >)
        ensures
            r == if self@.transfers_ownership() {
                Some(self@.release_barrier(current_frame))
            } else {
                None
            },
    {
        if self.compute_queue_idx == self.graphics_queue_idx {
            return None;
        }
        Some(
            ImageBarrier {
                slot: current_frame,
                src_family: self.compute_queue_idx,
                dst_family: self.graphics_queue_idx,
                src_access: Access::ShaderWrite,
                dst_access: Access::Nothing,
                src_stage: Stage::ComputeShader,
                dst_stage: Stage::BottomOfPipe,
            },
        )
    }

    /// The barrier the graphics commands record before they sample the
    /// slot's color image.
    pub fn acquire_barrier_for_graphics_queue(&self, current_frame: usize) -> (r: ImageBarrier)
        ensures
            r == self@.acquire_barrier(current_frame),
    {
        let (src_family, dst_family) = if self.graphics_queue_idx == self.compute_queue_idx {
            (QUEUE_FAMILY_IGNORED, QUEUE_FAMILY_IGNORED)
        } else {
            (self.compute_queue_idx, self.graphics_queue_idx)
        };
        ImageBarrier {
            slot: current_frame,
            src_family,
            dst_family,
            src_access: Access::ShaderWrite,
            dst_access: Access::ShaderRead,
            src_stage: Stage::ComputeShader,
            dst_stage: Stage::FragmentShader,
        }
    }

    /// Whether compute work of the slot may still run.
    pub fn in_flight(&self, current_frame: usize) -> (r: bool)
        requires
            current_frame < self@.slots,
        ensures
            r == self@.in_flight[current_frame as int],
    {
        self.in_flight[current_frame]
    }

    /// Whether compute work of any slot may still run.
    pub fn busy(&self) -> (r: bool)
        ensures
            r == self@.busy(),
    {
        let mut i: usize = 0;
        while i < self.in_flight.len()
            invariant
                0 <= i <= self.in_flight.len(),
                forall|j: int| 0 <= j < i ==> !self.in_flight[j],
            decreases self.in_flight.len() - i,
        {
            if self.in_flight[i] {
                proof {
                    assert(self@.in_flight[i as int]);
                }
                return true;
            }
            i += 1;
        }
        false
    }

    /// Decides whether the world arrays are copied to the GPU this frame,
    /// and acknowledges the copy to the world. The buffers are shared by
    /// all slots: a copy while compute work may still run is reported as a
    /// hazard.
    pub fn update_data(&self, world: &mut World) -> (plan: UploadPlan)
        ensures
            plan.upload == old(world)@.needs_upload,
            plan.hazard == (old(world)@.needs_upload && self@.busy()),
            final(world)@ == (WorldView { needs_upload: false, ..old(world)@ }),
    {
        if world.needs_upload() {
            let hazard = self.busy();
            world.uploaded();
            UploadPlan { upload: true, hazard }
        } else {
            proof {
                assert(world@ == (WorldView { needs_upload: false, ..world@ }));
            }
            UploadPlan { upload: false, hazard: false }
        }
    }

    /// The descriptor bindings of the ray-cast shader: the color image, the
    /// depth image, the run counts, the spans.
    pub fn bindings() -> (r: Vec<BindingKind>)
        ensures
            r@ == seq![
                BindingKind::StorageImage,
                BindingKind::StorageImage,
                BindingKind::StorageBuffer,
                BindingKind::StorageBuffer,
            ],
    {
        let mut r: Vec<BindingKind> = Vec::new();
        r.push(BindingKind::StorageImage);
        r.push(BindingKind::StorageImage);
        r.push(BindingKind::StorageBuffer);
        r.push(BindingKind::StorageBuffer);
        proof {
            assert(r@ =~= seq![
                BindingKind::StorageImage,
                BindingKind::StorageImage,
                BindingKind::StorageBuffer,
                BindingKind::StorageBuffer,
            ]);
        }
        r
    }
}

/// The arrays of every world fit the GPU buffers made for them.
pub proof fn lemma_world_fits_buffers(w: WorldView)
    requires
        w.wf(),
    ensures
        w.sizes.len() <= SIZES_BUFFER_LEN,
        w.spans.len() <= SPANS_BUFFER_LEN,
{
    lemma_array_lengths(w);
}

/// Where the queue families differ, release and acquire form a matched
/// pair: the same image, handed from the compute family to the graphics
/// family, with the shader's writes as the source on both sides.
pub proof fn lemma_barriers_match(c: ComputeView, slot: usize)
    requires
        c.transfers_ownership(),
    ensures
        c.release_barrier(slot).slot == c.acquire_barrier(slot).slot,
        c.release_barrier(slot).src_family == c.acquire_barrier(slot).src_family == c.compute_family,
        c.release_barrier(slot).dst_family == c.acquire_barrier(slot).dst_family
            == c.graphics_family,
        c.release_barrier(slot).src_access == c.acquire_barrier(slot).src_access,
        c.release_barrier(slot).src_stage == c.acquire_barrier(slot).src_stage,
{
}

/// Size of the push-constant block of the ray-cast shader, in bytes.
pub const PUSH_CONSTANTS_SIZE: u32 = 48;

/// The push-constant block of the ray-cast shader. The camera values are
/// held as the bit patterns of their single-precision numbers.
#[derive(Clone, Copy, Debug, PartialEq, Eq, Structural)]
pub struct RayCastPushConstants {
    /// Ray origin in world space: x, y, z.
    pub pos_x: u32,
    pub pos_y: u32,
    pub pos_z: u32,
    /// Ray direction in the horizontal plane.
    pub dir_x: u32,
    pub dir_y: u32,
    /// View-plane vector in the horizontal plane.
    pub plane_x: u32,
    pub plane_y: u32,
    pub world_size_x: u32,
    pub world_size_y: u32,
    pub world_size_z: u32,
}

impl RayCastPushConstants {
    /// The block as the shader reads it, word by word: position and a
    /// padding word, direction, plane, the world's size and a padding
    /// word.
    pub open spec fn layout(self) -> Seq<u32> {
        seq![
            self.pos_x,
            self.pos_y,
            self.pos_z,
            0u32,
            self.dir_x,
            self.dir_y,
            self.plane_x,
            self.plane_y,
            self.world_size_x,
            self.world_size_y,
            self.world_size_z,
            0u32,
        ]
    }

    /// The block for a world, with the camera at the origin and no
    /// direction yet.
    pub fn new(world: &World) -> (r: Self)
        ensures
            r == (RayCastPushConstants {
                pos_x: 0,
                pos_y: 0,
                pos_z: 0,
                dir_x: 0,
                dir_y: 0,
                plane_x: 0,
                plane_y: 0,
                world_size_x: world@.sx as u32,
                world_size_y: world@.sy as u32,
                world_size_z: world@.sz as u32,
            }),
    {
        RayCastPushConstants {
            pos_x: 0,
            pos_y: 0,
            pos_z: 0,
            dir_x: 0,
            dir_y: 0,
            plane_x: 0,
            plane_y: 0,
            world_size_x: world.size_x(),
            world_size_y: world.size_y(),
            world_size_z: world.size_z(),
        }
    }

    /// Takes over the camera's ray parameters and keeps the world's size.
    pub fn set_camera(&mut self, pos: (u32, u32, u32), dir: (u32, u32), plane: (u32, u32))
        ensures
            *final(self) == (RayCastPushConstants {
                pos_x: pos.0,
                pos_y: pos.1,
                pos_z: pos.2,
                dir_x: dir.0,
                dir_y: dir.1,
                plane_x: plane.0,
                plane_y: plane.1,
                ..*old(self)
            }),
    {
        self.pos_x = pos.0;
        self.pos_y = pos.1;
        self.pos_z = pos.2;
        self.dir_x = dir.0;
        self.dir_y = dir.1;
        self.plane_x = plane.0;
        self.plane_y = plane.1;
    }

    /// The words of the block in the shader's layout.
    pub fn words(&self) -> (r: Vec<u32>)
        ensures
            r@ == self.layout(),
            r.len() * 4 == PUSH_CONSTANTS_SIZE,
    {
        let mut r: Vec<u32> = Vec::new();
        r.push(self.pos_x);
        r.push(self.pos_y);
        r.push(self.pos_z);
        r.push(0);
        r.push(self.dir_x);
        r.push(self.dir_y);
        r.push(self.plane_x);
        r.push(self.plane_y);
        r.push(self.world_size_x);
        r.push(self.world_size_y);
        r.push(self.world_size_z);
        r.push(0);
        proof {
            assert(r@ =~= self.layout());
        }
        r
    }
}

} // verus!
