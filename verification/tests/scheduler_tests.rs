use engine::scheduler::{
    Action, Event, FatalError, FenceState, FrameScheduler, Phase, DRAW_TIMEOUT_NS, FRAMES_IN_FLIGHT,
};

fn start_frame(s: &mut FrameScheduler) -> usize {
    let slot = s.current_frame();
    assert_eq!(s.step(Event::Tick), Action::WaitFence { slot, timeout_ns: DRAW_TIMEOUT_NS });
    assert_eq!(s.step(Event::FenceSignaled), Action::AcquireImage { slot, timeout_ns: DRAW_TIMEOUT_NS });
    slot
}

fn complete_frame(s: &mut FrameScheduler, image: u32, compute: bool) {
    let slot = start_frame(s);
    assert_eq!(s.step(Event::ImageAcquired { image }), Action::ResetFence { slot });
    assert_eq!(s.step(Event::FenceReset), Action::RecordAndSubmit { slot, image, compute });
    assert_eq!(s.step(Event::Submitted), Action::Present { slot, image });
    assert_eq!(
        s.step(Event::Presented { suboptimal: false }),
        Action::FrameDone { presented: true }
    );
}

fn abandon_frame(s: &mut FrameScheduler, width: u32, height: u32) {
    start_frame(s);
    assert_eq!(s.step(Event::OutOfDate), Action::RecreateSwapchain { width, height });
    assert_eq!(s.phase(), Phase::SurfaceInvalid);
    assert_eq!(s.step(Event::SwapchainRecreated), Action::FrameDone { presented: false });
}

#[test]
fn constants() {
    assert_eq!(FRAMES_IN_FLIGHT, 2);
    assert_eq!(DRAW_TIMEOUT_NS, 5 * 1000 * 1000 * 1000);
}

#[test]
fn new_scheduler_is_idle_in_slot_zero() {
    let s = FrameScheduler::new(3, 800, 600);
    assert_eq!(s.current_frame(), 0);
    assert_eq!(s.phase(), Phase::Idle);
    for slot in 0..3 {
        assert_eq!(s.fence(slot), FenceState::Signaled);
    }
}

#[test]
fn a_frame_runs_through_every_phase() {
    let mut s = FrameScheduler::new(2, 800, 600);
    assert_eq!(s.step(Event::Tick), Action::WaitFence { slot: 0, timeout_ns: 5_000_000_000 });
    assert_eq!(s.phase(), Phase::WaitFence);
    assert_eq!(s.step(Event::FenceSignaled), Action::AcquireImage { slot: 0, timeout_ns: 5_000_000_000 });
    assert_eq!(s.phase(), Phase::AcquireImage);
    assert_eq!(s.step(Event::ImageAcquired { image: 2 }), Action::ResetFence { slot: 0 });
    assert_eq!(s.phase(), Phase::ImageAcquired { image: 2 });
    assert_eq!(s.fence(0), FenceState::Signaled);
    assert_eq!(
        s.step(Event::FenceReset),
        Action::RecordAndSubmit { slot: 0, image: 2, compute: false }
    );
    assert_eq!(s.phase(), Phase::RecordAndSubmit { image: 2 });
    assert_eq!(s.fence(0), FenceState::Reset);
    assert_eq!(s.step(Event::Submitted), Action::Present { slot: 0, image: 2 });
    assert_eq!(s.phase(), Phase::Present { image: 2 });
    assert_eq!(s.fence(0), FenceState::Pending);
    assert_eq!(
        s.step(Event::Presented { suboptimal: false }),
        Action::FrameDone { presented: true }
    );
    assert_eq!(s.phase(), Phase::Idle);
    assert_eq!(s.current_frame(), 1);
    assert_eq!(s.fence(0), FenceState::Pending);
    assert_eq!(s.fence(1), FenceState::Signaled);
}

#[test]
fn compute_stage_runs_once_it_is_added() {
    let mut s = FrameScheduler::new(2, 800, 600);
    complete_frame(&mut s, 0, false);
    s.add_compute_target();
    complete_frame(&mut s, 1, true);
    assert_eq!(s.current_frame(), 0);
}

#[test]
fn slots_rotate_whether_frames_are_presented_or_abandoned() {
    for slots in 1..5usize {
        let mut s = FrameScheduler::new(slots, 640, 480);
        for k in 0..23usize {
            assert_eq!(s.current_frame(), k % slots);
            if k % 3 == 1 || k % 7 == 0 {
                abandon_frame(&mut s, 640, 480);
            } else {
                complete_frame(&mut s, (k % 3) as u32, false);
            }
        }
        assert_eq!(s.current_frame(), 23 % slots);
    }
}

#[test]
fn stale_surface_at_acquisition_abandons_the_frame() {
    let mut s = FrameScheduler::new(2, 1024, 768);
    assert_eq!(s.step(Event::Tick), Action::WaitFence { slot: 0, timeout_ns: 5_000_000_000 });
    assert_eq!(s.step(Event::FenceSignaled), Action::AcquireImage { slot: 0, timeout_ns: 5_000_000_000 });
    // acquisition reports a stale surface: rebuild, and nothing else
    assert_eq!(
        s.step(Event::OutOfDate),
        Action::RecreateSwapchain { width: 1024, height: 768 }
    );
    assert_eq!(s.step(Event::SwapchainRecreated), Action::FrameDone { presented: false });
    assert_eq!(s.phase(), Phase::Idle);
    // the fence was not reset, so the slot can be waited for again
    assert_eq!(s.fence(0), FenceState::Signaled);
    assert_eq!(s.current_frame(), 1);
    // the next call succeeds normally
    complete_frame(&mut s, 0, false);
    assert_eq!(s.current_frame(), 0);
    complete_frame(&mut s, 1, false);
}

#[test]
fn suboptimal_present_rebuilds_after_presenting() {
    let mut s = FrameScheduler::new(2, 800, 600);
    let slot = start_frame(&mut s);
    s.step(Event::ImageAcquired { image: 1 });
    s.step(Event::FenceReset);
    assert_eq!(s.step(Event::Submitted), Action::Present { slot, image: 1 });
    assert_eq!(
        s.step(Event::Presented { suboptimal: true }),
        Action::RecreateSwapchain { width: 800, height: 600 }
    );
    assert_eq!(s.phase(), Phase::Recreate);
    assert_eq!(s.current_frame(), 0);
    assert_eq!(s.fence(0), FenceState::Pending);
    assert_eq!(s.step(Event::SwapchainRecreated), Action::FrameDone { presented: true });
    assert_eq!(s.current_frame(), 1);
    assert_eq!(s.fence(0), FenceState::Pending);
}

#[test]
fn stale_surface_at_present_rebuilds_after_presenting() {
    let mut s = FrameScheduler::new(2, 800, 600);
    start_frame(&mut s);
    s.step(Event::ImageAcquired { image: 0 });
    s.step(Event::FenceReset);
    s.step(Event::Submitted);
    assert_eq!(s.step(Event::OutOfDate), Action::RecreateSwapchain { width: 800, height: 600 });
    assert_eq!(s.step(Event::SwapchainRecreated), Action::FrameDone { presented: true });
    assert_eq!(s.current_frame(), 1);
}

#[test]
fn resize_rebuilds_once_with_the_new_extent() {
    let mut s = FrameScheduler::new(2, 800, 600);
    s.handle_resize(1280, 720);
    start_frame(&mut s);
    s.step(Event::ImageAcquired { image: 0 });
    s.step(Event::FenceReset);
    s.step(Event::Submitted);
    assert_eq!(
        s.step(Event::Presented { suboptimal: false }),
        Action::RecreateSwapchain { width: 1280, height: 720 }
    );
    assert_eq!(s.step(Event::SwapchainRecreated), Action::FrameDone { presented: true });
    // the flag is cleared: the next frame does not rebuild
    complete_frame(&mut s, 0, false);
    // a later stale surface is rebuilt for the extent last seen
    abandon_frame(&mut s, 1280, 720);
}

#[test]
fn fence_timeout_is_fatal() {
    let mut s = FrameScheduler::new(2, 800, 600);
    s.step(Event::Tick);
    assert_eq!(s.step(Event::Timeout), Action::Abort { error: FatalError::FenceTimeout });
    assert_eq!(s.phase(), Phase::Failed { error: FatalError::FenceTimeout });
    // nothing revives a failed scheduler
    assert_eq!(s.step(Event::Tick), Action::Abort { error: FatalError::FenceTimeout });
    assert_eq!(s.step(Event::Failure), Action::Abort { error: FatalError::FenceTimeout });
    assert_eq!(s.current_frame(), 0);
}

#[test]
fn acquire_timeout_is_fatal() {
    let mut s = FrameScheduler::new(2, 800, 600);
    start_frame(&mut s);
    assert_eq!(s.step(Event::Timeout), Action::Abort { error: FatalError::AcquireTimeout });
    assert_eq!(s.phase(), Phase::Failed { error: FatalError::AcquireTimeout });
}

#[test]
fn any_other_error_is_fatal() {
    let mut s = FrameScheduler::new(2, 800, 600);
    start_frame(&mut s);
    s.step(Event::ImageAcquired { image: 0 });
    s.step(Event::FenceReset);
    assert_eq!(s.step(Event::Failure), Action::Abort { error: FatalError::DeviceError });
    let mut s = FrameScheduler::new(2, 800, 600);
    assert_eq!(s.step(Event::Failure), Action::Abort { error: FatalError::DeviceError });
}

#[test]
fn an_outcome_nobody_waits_for_is_fatal() {
    let mut s = FrameScheduler::new(2, 800, 600);
    assert_eq!(s.step(Event::Submitted), Action::Abort { error: FatalError::UnexpectedEvent });
    let mut s = FrameScheduler::new(2, 800, 600);
    s.step(Event::Tick);
    assert_eq!(s.step(Event::Tick), Action::Abort { error: FatalError::UnexpectedEvent });
    let mut s = FrameScheduler::new(2, 800, 600);
    s.step(Event::Tick);
    assert_eq!(s.step(Event::OutOfDate), Action::Abort { error: FatalError::UnexpectedEvent });
    let mut s = FrameScheduler::new(2, 800, 600);
    start_frame(&mut s);
    s.step(Event::ImageAcquired { image: 0 });
    assert_eq!(s.step(Event::Timeout), Action::Abort { error: FatalError::UnexpectedEvent });
}

#[test]
fn rebuilding_leaves_the_fences_alone() {
    let mut s = FrameScheduler::new(3, 800, 600);
    complete_frame(&mut s, 0, false);
    complete_frame(&mut s, 1, false);
    let before: Vec<FenceState> = (0..3).map(|i| s.fence(i)).collect();
    assert_eq!(before, vec![FenceState::Pending, FenceState::Pending, FenceState::Signaled]);
    start_frame(&mut s);
    s.step(Event::OutOfDate);
    s.step(Event::SwapchainRecreated);
    let after: Vec<FenceState> = (0..3).map(|i| s.fence(i)).collect();
    assert_eq!(after, before);
    assert_eq!(s.current_frame(), 0);
}
