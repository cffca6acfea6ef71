use engine::compute::{
    group_count, Access, BindingKind, ComputeCommand, ComputeTarget, ImageBarrier, MemoryBarrier,
    RayCastPushConstants, Stage, UploadPlan, LOCAL_SIZE_X, LOCAL_SIZE_Y, PUSH_CONSTANTS_SIZE,
    QUEUE_FAMILY_IGNORED, SIZES_BUFFER_LEN, SPANS_BUFFER_LEN,
};
use engine::world::{Array3D, World};

fn clear_barrier() -> MemoryBarrier {
    MemoryBarrier {
        src_access: Access::TransferWrite,
        dst_access: Access::ShaderWrite,
        src_stage: Stage::Transfer,
        dst_stage: Stage::ComputeShader,
    }
}

fn small_world() -> World {
    let mut arr = Array3D::new(0, 2, 4, 3);
    arr.set(1, 2, 1, 1);
    World::from_array(&arr)
}

#[test]
fn workgroups_cover_the_extent() {
    assert_eq!(group_count(1024, 32), 32);
    assert_eq!(group_count(1025, 32), 33);
    assert_eq!(group_count(1, 32), 1);
    assert_eq!(group_count(0, 32), 0);
    assert_eq!(group_count(768, 1), 768);
    assert_eq!(group_count(u32::MAX, 1), u32::MAX);
    assert_eq!(group_count(u32::MAX, 2), 0x8000_0000);
    assert_eq!(group_count(u32::MAX, u32::MAX), 1);
    assert_eq!((LOCAL_SIZE_X, LOCAL_SIZE_Y), (32, 1));
}

#[test]
fn commands_of_a_frame_on_one_queue_family() {
    let ct = ComputeTarget::new(0, 0, 1024, 768, 32, 1, true, 2);
    assert_eq!(
        ct.record_compute_commands(1),
        vec![
            ComputeCommand::ResetBuffer,
            ComputeCommand::Begin,
            ComputeCommand::BindPipeline,
            ComputeCommand::BindDescriptorSet { slot: 1 },
            ComputeCommand::ClearColor { slot: 1 },
            ComputeCommand::ClearDepth { slot: 1 },
            ComputeCommand::Barrier { barrier: clear_barrier() },
            ComputeCommand::PushConstants,
            ComputeCommand::Dispatch { x: 32, y: 768, z: 1 },
            ComputeCommand::End,
        ]
    );
}

#[test]
fn commands_of_a_frame_release_the_image_to_another_family() {
    let ct = ComputeTarget::new(0, 2, 1000, 10, 32, 4, false, 2);
    assert_eq!(
        ct.record_compute_commands(0),
        vec![
            ComputeCommand::ResetBuffer,
            ComputeCommand::Begin,
            ComputeCommand::BindPipeline,
            ComputeCommand::BindDescriptorSet { slot: 0 },
            ComputeCommand::ClearColor { slot: 0 },
            ComputeCommand::ClearDepth { slot: 0 },
            ComputeCommand::Barrier { barrier: clear_barrier() },
            ComputeCommand::Dispatch { x: 32, y: 3, z: 1 },
            ComputeCommand::Release {
                transfer: ImageBarrier {
                    slot: 0,
                    src_family: 2,
                    dst_family: 0,
                    src_access: Access::ShaderWrite,
                    dst_access: Access::Nothing,
                    src_stage: Stage::ComputeShader,
                    dst_stage: Stage::BottomOfPipe,
                },
            },
            ComputeCommand::End,
        ]
    );
}

#[test]
fn release_and_acquire_are_a_matched_pair() {
    let ct = ComputeTarget::new(1, 3, 64, 64, 32, 1, true, 2);
    let release = ct.release_barrier_for_compute_queue(1).unwrap();
    let acquire = ct.acquire_barrier_for_graphics_queue(1);
    assert_eq!(
        acquire,
        ImageBarrier {
            slot: 1,
            src_family: 3,
            dst_family: 1,
            src_access: Access::ShaderWrite,
            dst_access: Access::ShaderRead,
            src_stage: Stage::ComputeShader,
            dst_stage: Stage::FragmentShader,
        }
    );
    assert_eq!(release.slot, acquire.slot);
    assert_eq!((release.src_family, release.dst_family), (3, 1));
    assert_eq!(release.src_access, acquire.src_access);
    assert_eq!(release.src_stage, acquire.src_stage);
}

#[test]
fn one_family_needs_no_ownership_transfer() {
    let ct = ComputeTarget::new(1, 1, 64, 64, 32, 1, true, 2);
    assert_eq!(ct.release_barrier_for_compute_queue(0), None);
    let acquire = ct.acquire_barrier_for_graphics_queue(0);
    assert_eq!(QUEUE_FAMILY_IGNORED, u32::MAX);
    assert_eq!(acquire.src_family, QUEUE_FAMILY_IGNORED);
    assert_eq!(acquire.dst_family, QUEUE_FAMILY_IGNORED);
    assert_eq!(acquire.dst_access, Access::ShaderRead);
}

#[test]
fn world_is_uploaded_once() {
    let ct = ComputeTarget::new(0, 0, 64, 64, 32, 1, true, 2);
    let mut world = small_world();
    assert_eq!(ct.update_data(&mut world), UploadPlan { upload: true, hazard: false });
    assert!(!world.needs_upload());
    assert_eq!(ct.update_data(&mut world), UploadPlan { upload: false, hazard: false });
    assert_eq!(world.sizes(), small_world().sizes());
    assert_eq!(world.spans(), small_world().spans());
}

#[test]
fn upload_while_compute_work_runs_is_flagged() {
    let mut ct = ComputeTarget::new(0, 0, 64, 64, 32, 1, true, 2);
    assert!(!ct.busy());
    ct.submit(1);
    assert!(ct.busy());
    assert!(ct.in_flight(1));
    assert!(!ct.in_flight(0));
    let mut world = small_world();
    assert_eq!(ct.update_data(&mut world), UploadPlan { upload: true, hazard: true });
    // nothing to upload, nothing to flag
    assert_eq!(ct.update_data(&mut world), UploadPlan { upload: false, hazard: false });
    ct.wait(1);
    assert!(!ct.busy());
    let mut world = small_world();
    assert_eq!(ct.update_data(&mut world), UploadPlan { upload: true, hazard: false });
}

#[test]
fn stage_without_slots_is_never_busy() {
    let ct = ComputeTarget::new(0, 0, 64, 64, 32, 1, true, 0);
    assert!(!ct.busy());
}

#[test]
fn shader_bindings() {
    assert_eq!(
        ComputeTarget::bindings(),
        vec![
            BindingKind::StorageImage,
            BindingKind::StorageImage,
            BindingKind::StorageBuffer,
            BindingKind::StorageBuffer,
        ]
    );
}

#[test]
fn world_arrays_fit_the_gpu_buffers() {
    assert_eq!(SIZES_BUFFER_LEN, 256 * 256);
    assert_eq!(SPANS_BUFFER_LEN, 256 * 256 * 256);
    let arr = Array3D::new(1, 256, 255, 2);
    let world = World::from_array(&arr);
    assert_eq!(world.sizes().len(), 512);
    assert_eq!(world.spans().len(), 256 * 256 * 2);
    assert!(world.spans().len() <= SPANS_BUFFER_LEN as usize);
}

#[test]
fn push_constants_follow_the_shader_layout() {
    let mut pc = RayCastPushConstants::new(&small_world());
    assert_eq!(pc.words(), vec![0, 0, 0, 0, 0, 0, 0, 0, 2, 4, 3, 0]);
    pc.set_camera(
        (1.5f32.to_bits(), 2.0f32.to_bits(), (-3.0f32).to_bits()),
        (0.0f32.to_bits(), 1.0f32.to_bits()),
        (0.5f32.to_bits(), 0.25f32.to_bits()),
    );
    assert_eq!(
        pc.words(),
        vec![
            0x3fc0_0000,
            0x4000_0000,
            0xc040_0000,
            0,
            0,
            0x3f80_0000,
            0x3f00_0000,
            0x3e80_0000,
            2,
            4,
            3,
            0,
        ]
    );
    assert_eq!(pc.words().len() * 4, PUSH_CONSTANTS_SIZE as usize);
}

#[test]
fn resize_changes_the_dispatch_and_nothing_else() {
    let mut ct = ComputeTarget::new(0, 1, 64, 48, 32, 1, true, 2);
    ct.submit(0);
    ct.handle_resize(100, 10);
    assert!(ct.in_flight(0));
    assert!(!ct.in_flight(1));
    let commands = ct.record_compute_commands(1);
    assert_eq!(commands[8], ComputeCommand::Dispatch { x: 4, y: 10, z: 1 });
    assert_eq!(commands.len(), 11);
    assert_eq!(ct.acquire_barrier_for_graphics_queue(1).src_family, 1);
}
