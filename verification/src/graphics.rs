//! The graphics side of a frame: the commands recorded for a presentable
//! image, what each queue submission waits for and signals, and the order
//! in which GPU objects are torn down.
use vstd::prelude::*;
use crate::compute::ComputeTarget;
use crate::compute::ComputeView;
use crate::compute::ImageBarrier;
use crate::compute::Stage;

verus! {

/// A semaphore of a frame slot.
#[derive(Clone, Copy, Debug, PartialEq, Eq, Structural)]
pub enum Semaphore {
    ImageAvailable { slot: usize },
    ComputeFinished { slot: usize },
    RenderFinished { slot: usize },
}

/// A semaphore a submission waits for, and the stage that waits.
#[derive(Clone, Copy, Debug, PartialEq, Eq, Structural)]
pub struct Wait {
    pub semaphore: Semaphore,
    pub stage: Stage,
}

/// The queue a submission goes to.
#[derive(Clone, Copy, Debug, PartialEq, Eq, Structural)]
pub enum Queue {
    Graphics,
    Compute,
}

/// One queue submission of a slot's command buffer.
pub struct Submission {
    pub queue: Queue,
    pub slot: usize,
    pub waits: Vec<Wait>,
    pub signal: Semaphore,
}

/// One command of the graphics command buffer.
#[derive(Clone, Copy, Debug, PartialEq, Eq, Structural)]
pub enum GraphicsCommand {
    ResetBuffer,
    Begin,
    Acquire { transfer: ImageBarrier },
    SetViewport,
    SetScissor,
    BeginRenderPass { image: u32 },
    /// Draws the quad that shows the compute stage's output.
    DrawComputeOutput { slot: usize },
    /// Draws the static mesh registered at position `mesh`.
    DrawMesh { mesh: usize, slot: usize },
    EndRenderPass,
    End,
}

/// The graphics commands of one frame, in order.
pub open spec fn graphics_commands(
    image: u32,
    slot: usize,
    meshes: usize,
    compute: Option<ComputeView>,
) -> Seq<GraphicsCommand> {
    seq![GraphicsCommand::ResetBuffer, GraphicsCommand::Begin] + (match compute {
        Some(c) => seq![GraphicsCommand::Acquire { transfer: c.acquire_barrier(slot) }],
        None => seq![],
    }) + seq![
        GraphicsCommand::SetViewport,
        GraphicsCommand::SetScissor,
        GraphicsCommand::BeginRenderPass { image },
    ] + (if compute is Some {
        seq![GraphicsCommand::DrawComputeOutput { slot }]
    } else {
        seq![]
    }) + Seq::new(meshes as nat, |i: int| GraphicsCommand::DrawMesh { mesh: i as usize, slot })
        + seq![GraphicsCommand::EndRenderPass, GraphicsCommand::End]
}

/// The commands to record for a frame that draws into `image_index`:
/// reset and begin, the acquire barrier for the compute output, viewport
/// and scissor, the render pass with the compute output first and then
/// every static mesh in the order of registration, end.
pub fn record_commands(
    image_index: u32,
    current_frame: usize,
    meshes: usize,
    compute_target: Option<&ComputeTarget>,
) -> (r: Vec<GraphicsCommand>)
    ensures
        r@ == graphics_commands(
            image_index,
            current_frame,
            meshes,
            match compute_target {
                Some(ct) => Some(ct@),
                None => None,
            },
        ),
{
    let slot = current_frame;
    let ghost compute = match compute_target {
        Some(ct) => Some(ct@),
        None => None,
    };
    let mut r: Vec<GraphicsCommand> = Vec::new();
    r.push(GraphicsCommand::ResetBuffer);
    r.push(GraphicsCommand::Begin);
    if let Some(ct) = compute_target {
        r.push(GraphicsCommand::Acquire { transfer: ct.acquire_barrier_for_graphics_queue(slot) });
    }
    r.push(GraphicsCommand::SetViewport);
    r.push(GraphicsCommand::SetScissor);
    r.push(GraphicsCommand::BeginRenderPass { image: image_index });
    if compute_target.is_some() {
        r.push(GraphicsCommand::DrawComputeOutput { slot });
    }
    let ghost head = r@;
    let mut mesh: usize = 0;
    while mesh < meshes
        invariant
            0 <= mesh <= meshes,
            r@ == head + Seq::new(mesh as nat, |i: int| GraphicsCommand::DrawMesh { mesh: i as usize, slot }),
        decreases meshes - mesh,
    {
        r.push(GraphicsCommand::DrawMesh { mesh, slot });
        mesh += 1;
        proof {
            assert(r@ =~= head + Seq::new(
                mesh as nat,
                |i: int| GraphicsCommand::DrawMesh { mesh: i as usize, slot },
            ));
        }
    }
    r.push(GraphicsCommand::EndRenderPass);
    r.push(GraphicsCommand::End);
    proof {
        assert(r@ =~= graphics_commands(image_index, current_frame, meshes, compute));
    }
    r
}

/// What the graphics submission of a slot waits for.
pub open spec fn graphics_waits(slot: usize, compute: bool) -> Seq<Wait> {
    (if compute {
        seq![Wait { semaphore: Semaphore::ComputeFinished { slot }, stage: Stage::ComputeShader }]
    } else {
        seq![]
    }) + seq![
        Wait { semaphore: Semaphore::ImageAvailable { slot }, stage: Stage::ColorAttachmentOutput },
    ]
}

/// The submission of the slot's graphics commands: it waits for the
/// acquired image and, with a compute stage, for that slot's compute work;
/// it signals the slot's "render finished" semaphore and its fence.
pub fn submit(current_frame: usize, compute: bool) -> (r: Submission)
    ensures
        r.queue == Queue::Graphics,
        r.slot == current_frame,
        r.waits@ == graphics_waits(current_frame, compute),
        r.signal == (Semaphore::RenderFinished { slot: current_frame }),
{
    let slot = current_frame;
    let mut waits: Vec<Wait> = Vec::new();
    if compute {
        waits.push(Wait { semaphore: Semaphore::ComputeFinished { slot }, stage: Stage::ComputeShader });
    }
    waits.push(
        Wait { semaphore: Semaphore::ImageAvailable { slot }, stage: Stage::ColorAttachmentOutput },
    );
    proof {
        assert(waits@ =~= graphics_waits(current_frame, compute));
    }
    Submission { queue: Queue::Graphics, slot, waits, signal: Semaphore::RenderFinished { slot } }
}

/// The submission of the slot's compute commands: it waits for nothing and
/// signals the slot's "compute finished" semaphore and compute fence.
pub fn submit_compute(current_frame: usize) -> (r: Submission)
    ensures
        r.queue == Queue::Compute,
        r.slot == current_frame,
        r.waits@ == Seq::<Wait>::empty(),
        r.signal == (Semaphore::ComputeFinished { slot: current_frame }),
{
    Submission {
        queue: Queue::Compute,
        slot: current_frame,
        waits: Vec::new(),
        signal: Semaphore::ComputeFinished { slot: current_frame },
    }
}

/// With a compute stage, the graphics submission of a slot waits for
/// exactly the semaphore that the slot's compute submission signals.
pub proof fn lemma_graphics_waits_for_compute(slot: usize)
    ensures
        graphics_waits(slot, true)[0].semaphore == (Semaphore::ComputeFinished { slot }),
        graphics_waits(slot, true).len() == 2,
        graphics_waits(slot, false).len() == 1,
{
}

/// How long a GPU object lives.
#[derive(Clone, Copy, Debug, PartialEq, Eq, Structural)]
pub enum Tier {
    /// From startup to shutdown.
    Device,
    /// Until the presentation surface is invalidated.
    Surface,
}

/// The groups of objects a renderer owns.
#[derive(Clone, Copy, Debug, PartialEq, Eq, Structural)]
pub enum Resource {
    ImageAvailableSemaphores,
    RenderFinishedSemaphores,
    Fences,
    Framebuffers,
    DepthAttachments,
    ColorAttachments,
    SwapchainImageViews,
    Swapchain,
    Texture,
    ComputeTarget,
    ComputeOutputMesh,
    RenderPass,
    Meshes,
    CommandPool,
    Device,
    WindowSurface,
    DebugMessenger,
    Instance,
}

/// The tier of a resource: the swapchain and what is built on its images
/// are surface-scoped, everything else lives as long as the device.
pub open spec fn tier_of(r: Resource) -> Tier {
    match r {
        Resource::Framebuffers
        | Resource::DepthAttachments
        | Resource::ColorAttachments
        | Resource::SwapchainImageViews
        | Resource::Swapchain => Tier::Surface,
        _ => Tier::Device,
    }
}

pub fn tier(r: Resource) -> (t: Tier)
    ensures
        t == tier_of(r),
{
    match r {
        Resource::Framebuffers
        | Resource::DepthAttachments
        | Resource::ColorAttachments
        | Resource::SwapchainImageViews
        | Resource::Swapchain => Tier::Surface,
        _ => Tier::Device,
    }
}

/// The order in which the surface-scoped objects are destroyed.
pub open spec fn swapchain_teardown() -> Seq<Resource> {
    seq![
        Resource::Framebuffers,
        Resource::DepthAttachments,
        Resource::ColorAttachments,
        Resource::SwapchainImageViews,
        Resource::Swapchain,
    ]
}

/// The order in which everything is destroyed at shutdown, once the device
/// is idle.
pub open spec fn shutdown_teardown() -> Seq<Resource> {
    seq![
        Resource::ImageAvailableSemaphores,
        Resource::RenderFinishedSemaphores,
        Resource::Fences,
    ] + swapchain_teardown() + seq![
        Resource::Texture,
        Resource::ComputeTarget,
        Resource::ComputeOutputMesh,
        Resource::RenderPass,
        Resource::Meshes,
        Resource::CommandPool,
        Resource::Device,
        Resource::WindowSurface,
        Resource::DebugMessenger,
        Resource::Instance,
    ]
}

/// What is destroyed before the swapchain is rebuilt, in order.
pub fn cleanup_swapchain() -> (r: Vec<Resource>)
    ensures
        r@ == swapchain_teardown(),
{
    let mut r: Vec<Resource> = Vec::new();
    r.push(Resource::Framebuffers);
    r.push(Resource::DepthAttachments);
    r.push(Resource::ColorAttachments);
    r.push(Resource::SwapchainImageViews);
    r.push(Resource::Swapchain);
    proof {
        assert(r@ =~= swapchain_teardown());
    }
    r
}

/// What is destroyed at shutdown, in order.
pub fn shutdown() -> (r: Vec<Resource>)
    ensures
        r@ == shutdown_teardown(),
{
    let mut r: Vec<Resource> = Vec::new();
    r.push(Resource::ImageAvailableSemaphores);
    r.push(Resource::RenderFinishedSemaphores);
    r.push(Resource::Fences);
    let mut surface = cleanup_swapchain();
    r.append(&mut surface);
    r.push(Resource::Texture);
    r.push(Resource::ComputeTarget);
    r.push(Resource::ComputeOutputMesh);
    r.push(Resource::RenderPass);
    r.push(Resource::Meshes);
    r.push(Resource::CommandPool);
    r.push(Resource::Device);
    r.push(Resource::WindowSurface);
    r.push(Resource::DebugMessenger);
    r.push(Resource::Instance);
    proof {
        assert(r@ =~= shutdown_teardown());
    }
    r
}

/// Position of a resource in the shutdown order.
pub open spec fn shutdown_position(r: Resource) -> int {
    match r {
        Resource::ImageAvailableSemaphores => 0,
        Resource::RenderFinishedSemaphores => 1,
        Resource::Fences => 2,
        Resource::Framebuffers => 3,
        Resource::DepthAttachments => 4,
        Resource::ColorAttachments => 5,
        Resource::SwapchainImageViews => 6,
        Resource::Swapchain => 7,
        Resource::Texture => 8,
        Resource::ComputeTarget => 9,
        Resource::ComputeOutputMesh => 10,
        Resource::RenderPass => 11,
        Resource::Meshes => 12,
        Resource::CommandPool => 13,
        Resource::Device => 14,
        Resource::WindowSurface => 15,
        Resource::DebugMessenger => 16,
        Resource::Instance => 17,
    }
}

/// Rebuilding the swapchain destroys every surface-scoped object and
/// nothing that is device-scoped.
pub proof fn lemma_swapchain_teardown_is_surface_tier(r: Resource)
    ensures
        swapchain_teardown().contains(r) <==> tier_of(r) == Tier::Surface,
{
    let t = swapchain_teardown();
    if tier_of(r) == Tier::Surface {
        let i = shutdown_position(r) - 3;
        assert(t[i] == r);
    }
    if t.contains(r) {
        let i = choose|i: int| 0 <= i < t.len() && t[i] == r;
        assert(tier_of(t[i]) == Tier::Surface);
    }
}

/// Shutdown destroys every resource exactly once; the device goes after
/// everything that was created from it, and the instance goes last.
pub proof fn lemma_shutdown_order(r: Resource)
    ensures
        shutdown_teardown().len() == 18,
        shutdown_teardown()[shutdown_position(r)] == r,
        forall|i: int|
            0 <= i < 18 && shutdown_teardown()[i] == r ==> i == shutdown_position(r),
        tier_of(r) == Tier::Surface ==> shutdown_position(r) < shutdown_position(Resource::Device),
        shutdown_position(r) < shutdown_position(Resource::Device) <==> !(r is Device || r
            is WindowSurface || r is DebugMessenger || r is Instance),
        shutdown_position(r) <= shutdown_position(Resource::Instance),
{
    let t = shutdown_teardown();
    assert(t.len() == 18);
    assert forall|i: int| 0 <= i < 18 && t[i] == r implies i == shutdown_position(r) by {
        assert(shutdown_position(t[i]) == i);
    }
}

} // verus!
