//! The frame scheduler: the per-frame state machine that rotates frame
//! slots and decides, from the outcome of each GPU operation, what is done
//! next.
//!
//! The scheduler performs no GPU work. Its owner carries out each
//! [`Action`] and reports the outcome as an [`Event`].
use vstd::prelude::*;
use vstd::arithmetic::div_mod::lemma_add_mod_noop;
use vstd::arithmetic::div_mod::lemma_mod_twice;
use vstd::arithmetic::div_mod::lemma_small_mod;

verus! {

/// Number of frame slots of the renderer.
pub const FRAMES_IN_FLIGHT: usize = 2;

/// Timeout of every fence wait and image acquisition, in nanoseconds.
pub const DRAW_TIMEOUT_NS: u64 = 5_000_000_000;

/// What is known of a slot's "is rendering" fence.
#[derive(Clone, Copy, Debug, PartialEq, Eq, Structural)]
pub enum FenceState {
    /// The GPU has signaled it, or it was created signaled.
    Signaled,
    /// It was reset and no submission will signal it yet.
    Reset,
    /// A submission that signals it is in flight.
    Pending,
}

/// Why the scheduler gave up.
#[derive(Clone, Copy, Debug, PartialEq, Eq, Structural)]
pub enum FatalError {
    /// The slot's fence was not signaled within the timeout.
    FenceTimeout,
    /// No image could be acquired within the timeout.
    AcquireTimeout,
    /// The device reported an error other than a stale surface.
    DeviceError,
    /// An outcome was reported that the current phase does not wait for.
    UnexpectedEvent,
}

/// Where the scheduler stands within a frame.
#[derive(Clone, Copy, Debug, PartialEq, Eq, Structural)]
pub enum Phase {
    Idle,
    WaitFence,
    AcquireImage,
    ImageAcquired { image: u32 },
    /// Acquisition found the surface stale; the frame is abandoned.
    SurfaceInvalid,
    RecordAndSubmit { image: u32 },
    Present { image: u32 },
    /// The frame was presented and the swapchain is being rebuilt.
    Recreate,
    Failed { error: FatalError },
}

/// The outcome of the last action, or the request for a frame.
#[derive(Clone, Copy, Debug, PartialEq, Eq, Structural)]
pub enum Event {
    /// A frame is to be rendered.
    Tick,
    FenceSignaled,
    ImageAcquired { image: u32 },
    FenceReset,
    Submitted,
    Presented { suboptimal: bool },
    /// The surface no longer matches the swapchain.
    OutOfDate,
    SwapchainRecreated,
    /// The wait ran into its timeout.
    Timeout,
    /// Any other error.
    Failure,
}

/// What the owner of the scheduler does next.
#[derive(Clone, Copy, Debug, PartialEq, Eq, Structural)]
pub enum Action {
    /// Wait for the slot's fence, at most `timeout_ns` nanoseconds.
    WaitFence { slot: usize, timeout_ns: u64 },
    /// Acquire a presentable image within `timeout_ns` nanoseconds,
    /// signaling the slot's "image available" semaphore.
    AcquireImage { slot: usize, timeout_ns: u64 },
    ResetFence { slot: usize },
    /// Run the compute stage for the slot if `compute` is set, then record
    /// and submit the graphics commands that draw into `image`.
    RecordAndSubmit { slot: usize, image: u32, compute: bool },
    /// Queue `image` for presentation, waiting on the slot's "render
    /// finished" semaphore.
    Present { slot: usize, image: u32 },
    /// Tear down the surface-scoped resources and rebuild them for the
    /// given window extent.
    RecreateSwapchain { width: u32, height: u32 },
    /// The frame is over; `presented` tells whether it reached the screen.
    FrameDone { presented: bool },
    Abort { error: FatalError },
}

/// The scheduler as contracts see it.
pub struct SchedulerState {
    pub slots: int,
    pub current_frame: int,
    pub phase: Phase,
    pub fences: Seq<FenceState>,
    pub has_compute: bool,
    pub width: u32,
    pub height: u32,
    pub resized: bool,
}

impl SchedulerState {
    /// The state of a new scheduler: idle in slot 0, every fence signaled.
    pub open spec fn initial(slots: int, has_compute: bool, width: u32, height: u32) -> Self {
        SchedulerState {
            slots,
            current_frame: 0,
            phase: Phase::Idle,
            fences: Seq::new(slots as nat, |i: int| FenceState::Signaled),
            has_compute,
            width,
            height,
            resized: false,
        }
    }

    /// No fence but, at most, that of slot `except` is reset.
    pub open spec fn none_reset_but(self, except: int) -> bool {
        forall|i: int| 0 <= i < self.fences.len() && i != except ==> self.fences[i] != FenceState::Reset
    }

    /// There is a slot, the current slot exists, every slot has a fence, and
    /// a fence is reset only while its slot's commands are being recorded.
    pub open spec fn wf(self) -> bool {
        &&& 1 <= self.slots <= usize::MAX
        &&& 0 <= self.current_frame < self.slots
        &&& self.fences.len() == self.slots
        &&& match self.phase {
            Phase::RecordAndSubmit { .. } => {
                self.fences[self.current_frame] == FenceState::Reset && self.none_reset_but(
                    self.current_frame,
                )
            },
            Phase::AcquireImage | Phase::ImageAcquired { .. } | Phase::SurfaceInvalid => {
                self.fences[self.current_frame] == FenceState::Signaled && self.none_reset_but(-1)
            },
            Phase::Present { .. } | Phase::Recreate => {
                self.fences[self.current_frame] == FenceState::Pending && self.none_reset_but(-1)
            },
            Phase::Failed { .. } => true,
            _ => self.none_reset_but(-1),
        }
    }

    /// The slot after the current one.
    pub open spec fn next_slot(self) -> int {
        (self.current_frame + 1) % self.slots
    }

    pub open spec fn with_phase(self, phase: Phase) -> Self {
        SchedulerState { phase, ..self }
    }

    pub open spec fn with_fence(self, state: FenceState) -> Self {
        SchedulerState { fences: self.fences.update(self.current_frame, state), ..self }
    }

    /// The frame is over: idle again, in the next slot.
    pub open spec fn advanced(self) -> Self {
        SchedulerState { phase: Phase::Idle, current_frame: self.next_slot(), ..self }
    }

    pub open spec fn failed(self, error: FatalError) -> (Self, Action) {
        (self.with_phase(Phase::Failed { error }), Action::Abort { error })
    }

    pub open spec fn recreate(self) -> Action {
        Action::RecreateSwapchain { width: self.width, height: self.height }
    }

    /// The state after `event`, and the action it calls for.
    pub open spec fn transition(self, event: Event) -> (Self, Action) {
        let slot = self.current_frame as usize;
        match (self.phase, event) {
            (Phase::Failed { error }, _) => (self, Action::Abort { error }),
            (_, Event::Failure) => self.failed(FatalError::DeviceError),
            (Phase::Idle, Event::Tick) => (
                self.with_phase(Phase::WaitFence),
                Action::WaitFence { slot, timeout_ns: DRAW_TIMEOUT_NS },
            ),
            (Phase::WaitFence, Event::FenceSignaled) => (
                self.with_fence(FenceState::Signaled).with_phase(Phase::AcquireImage),
                Action::AcquireImage { slot, timeout_ns: DRAW_TIMEOUT_NS },
            ),
            (Phase::WaitFence, Event::Timeout) => self.failed(FatalError::FenceTimeout),
            (Phase::AcquireImage, Event::ImageAcquired { image }) => (
                self.with_phase(Phase::ImageAcquired { image }),
                Action::ResetFence { slot },
            ),
            (Phase::AcquireImage, Event::OutOfDate) => (
                self.with_phase(Phase::SurfaceInvalid),
                self.recreate(),
            ),
            (Phase::AcquireImage, Event::Timeout) => self.failed(FatalError::AcquireTimeout),
            (Phase::ImageAcquired { image }, Event::FenceReset) => (
                self.with_fence(FenceState::Reset).with_phase(Phase::RecordAndSubmit { image }),
                Action::RecordAndSubmit { slot, image, compute: self.has_compute },
            ),
            (Phase::RecordAndSubmit { image }, Event::Submitted) => (
                self.with_fence(FenceState::Pending).with_phase(Phase::Present { image }),
                Action::Present { slot, image },
            ),
            (Phase::Present { image }, Event::Presented { suboptimal }) => {
                if suboptimal || self.resized {
                    (
                        SchedulerState { phase: Phase::Recreate, resized: false, ..self },
                        self.recreate(),
                    )
                } else {
                    (self.advanced(), Action::FrameDone { presented: true })
                }
            },
            (Phase::Present { image }, Event::OutOfDate) => (
                SchedulerState { phase: Phase::Recreate, resized: false, ..self },
                self.recreate(),
            ),
            (Phase::SurfaceInvalid, Event::SwapchainRecreated) => (
                self.advanced(),
                Action::FrameDone { presented: false },
            ),
            (Phase::Recreate, Event::SwapchainRecreated) => (
                self.advanced(),
                Action::FrameDone { presented: true },
            ),
            _ => self.failed(FatalError::UnexpectedEvent),
        }
    }

    /// The state after a sequence of events.
    pub open spec fn run(self, events: Seq<Event>) -> Self
        decreases events.len(),
    {
        if events.len() == 0 {
            self
        } else {
            self.run(events.drop_last()).transition(events.last()).0
        }
    }

    /// Number of frames that ended during a sequence of events, whether
    /// they were presented or abandoned.
    pub open spec fn frames_ended(self, events: Seq<Event>) -> nat
        decreases events.len(),
    {
        if events.len() == 0 {
            0
        } else {
            let before = self.run(events.drop_last());
            let ended: nat = if before.transition(events.last()).1 is FrameDone {
                1
            } else {
                0
            };
            self.frames_ended(events.drop_last()) + ended
        }
    }
}

/// The scheduler of a renderer with a fixed number of frame slots.
pub struct FrameScheduler {
    slots: usize,
    current_frame: usize,
    phase: Phase,
    fences: Vec<FenceState>,
    has_compute: bool,
    width: u32,
    height: u32,
    resized: bool,
}

impl View for FrameScheduler {
    type V = SchedulerState;

    closed spec fn view(&self) -> SchedulerState {
        SchedulerState {
            slots: self.slots as int,
            current_frame: self.current_frame as int,
            phase: self.phase,
            fences: self.fences@,
            has_compute: self.has_compute,
            width: self.width,
            height: self.height,
            resized: self.resized,
        }
    }
}

impl FrameScheduler {
    /// A scheduler over `slots` frame slots for a window of the given
    /// extent.
    pub fn new(slots: usize, width: u32, height: u32) -> (r: Self)
        requires
            slots >= 1,
        ensures
            r@ == SchedulerState::initial(slots as int, false, width, height),
            r@.wf(),
    {
        let fences = vec![FenceState::Signaled; slots];
        let r = Self {
            slots,
            current_frame: 0,
            phase: Phase::Idle,
            fences,
            has_compute: false,
            width,
            height,
            resized: false,
        };
        proof {
            assert(r@.fences =~= SchedulerState::initial(slots as int, false, width, height).fences);
        }
        r
    }

    /// From now on every frame runs the compute stage before its graphics
    /// commands.
    pub fn add_compute_target(&mut self)
        ensures
            final(self)@ == (SchedulerState { has_compute: true, ..old(self)@ }),
    {
        self.has_compute = true;
    }

    /// Records the new window extent; the swapchain is rebuilt after the
    /// next present.
    pub fn handle_resize(&mut self, w: u32, h: u32)
        ensures
            final(self)@ == (SchedulerState { width: w, height: h, resized: true, ..old(self)@ }),
    {
        self.width = w;
        self.height = h;
        self.resized = true;
    }

    /// The slot whose resources the current frame uses.
    pub fn current_frame(&self) -> (r: usize)
        ensures
            r == self@.current_frame,
    {
        self.current_frame
    }

    pub fn phase(&self) -> (r: Phase)
        ensures
            r == self@.phase,
    {
        self.phase
    }

    /// What is known of the fence of `slot`.
    pub fn fence(&self, slot: usize) -> (r: FenceState)
        requires
            slot < self@.fences.len(),
        ensures
            r == self@.fences[slot as int],
    {
        self.fences[slot]
    }

    fn fail(&mut self, error: FatalError) -> (action: Action)
        ensures
            (final(self)@, action) == old(self)@.failed(error),
    {
        self.phase = Phase::Failed { error };
        Action::Abort { error }
    }

    fn advance(&mut self)
        requires
            old(self)@.wf(),
        ensures
            final(self)@ == old(self)@.advanced(),
    {
        self.phase = Phase::Idle;
        self.current_frame = (self.current_frame + 1) % self.slots;
    }

    fn begin_recreate(&mut self, phase: Phase) -> (action: Action)
        ensures
            final(self)@ == old(self)@.with_phase(phase),
            action == old(self)@.recreate(),
    {
        self.phase = phase;
        Action::RecreateSwapchain { width: self.width, height: self.height }
    }

    /// Takes the outcome of the last action and says what is done next.
    pub fn step(&mut self, event: Event) -> (action: Action)
        requires
            old(self)@.wf(),
        ensures
            (final(self)@, action) == old(self)@.transition(event),
            final(self)@.wf(),
    {
        proof {
            lemma_transition_keeps_wf(self@, event);
        }
        let slot = self.current_frame;
        match (self.phase, event) {
            (Phase::Failed { error }, _) => Action::Abort { error },
            (_, Event::Failure) => self.fail(FatalError::DeviceError),
            (Phase::Idle, Event::Tick) => {
                self.phase = Phase::WaitFence;
                Action::WaitFence { slot, timeout_ns: DRAW_TIMEOUT_NS }
            },
            (Phase::WaitFence, Event::FenceSignaled) => {
                self.fences[slot] = FenceState::Signaled;
                self.phase = Phase::AcquireImage;
                Action::AcquireImage { slot, timeout_ns: DRAW_TIMEOUT_NS }
            },
            (Phase::WaitFence, Event::Timeout) => self.fail(FatalError::FenceTimeout),
            (Phase::AcquireImage, Event::ImageAcquired { image }) => {
                self.phase = Phase::ImageAcquired { image };
                Action::ResetFence { slot }
            },
            (Phase::AcquireImage, Event::OutOfDate) => self.begin_recreate(Phase::SurfaceInvalid),
            (Phase::AcquireImage, Event::Timeout) => self.fail(FatalError::AcquireTimeout),
            (Phase::ImageAcquired { image }, Event::FenceReset) => {
                self.fences[slot] = FenceState::Reset;
                self.phase = Phase::RecordAndSubmit { image };
                Action::RecordAndSubmit { slot, image, compute: self.has_compute }
            },
            (Phase::RecordAndSubmit { image }, Event::Submitted) => {
                self.fences[slot] = FenceState::Pending;
                self.phase = Phase::Present { image };
                Action::Present { slot, image }
            },
            (Phase::Present { image }, Event::Presented { suboptimal }) => {
                if suboptimal || self.resized {
                    self.resized = false;
                    self.begin_recreate(Phase::Recreate)
                } else {
                    self.advance();
                    Action::FrameDone { presented: true }
                }
            },
            (Phase::Present { image }, Event::OutOfDate) => {
                self.resized = false;
                self.begin_recreate(Phase::Recreate)
            },
            (Phase::SurfaceInvalid, Event::SwapchainRecreated) => {
                self.advance();
                Action::FrameDone { presented: false }
            },
            (Phase::Recreate, Event::SwapchainRecreated) => {
                self.advance();
                Action::FrameDone { presented: true }
            },
            _ => self.fail(FatalError::UnexpectedEvent),
        }
    }
}

/// Every transition leads from a well-formed state to a well-formed state.
pub proof fn lemma_transition_keeps_wf(s: SchedulerState, event: Event)
    requires
        s.wf(),
    ensures
        s.transition(event).0.wf(),
        s.transition(event).0.slots == s.slots,
{
    let t = s.transition(event).0;
    assert(0 <= s.next_slot() < s.slots);
}

/// Slot rotation: however a run of events went, the current slot is the
/// number of frames that ended, presented or abandoned, modulo the number
/// of slots.
pub proof fn lemma_slot_rotation(
    slots: int,
    has_compute: bool,
    width: u32,
    height: u32,
    events: Seq<Event>,
)
    requires
        1 <= slots <= usize::MAX,
    ensures
        SchedulerState::initial(slots, has_compute, width, height).run(events).wf(),
        SchedulerState::initial(slots, has_compute, width, height).run(events).slots == slots,
        SchedulerState::initial(slots, has_compute, width, height).run(events).current_frame
            == SchedulerState::initial(slots, has_compute, width, height).frames_ended(events)
            % (slots as nat),
    decreases events.len(),
{
    let start = SchedulerState::initial(slots, has_compute, width, height);
    if events.len() == 0 {
        lemma_small_mod(0, slots as nat);
    } else {
        let head = events.drop_last();
        lemma_slot_rotation(slots, has_compute, width, height, head);
        let before = start.run(head);
        let ended = start.frames_ended(head) as int;
        lemma_transition_keeps_wf(before, events.last());
        if before.transition(events.last()).1 is FrameDone {
            lemma_add_mod_noop(ended, 1, slots);
            if slots == 1 {
                lemma_mod_twice(ended, slots);
            } else {
                lemma_small_mod(1, slots as nat);
            }
        }
    }
}

/// Rebuilding the swapchain touches no frame slot: neither the action that
/// asks for it nor its completion changes a fence or the set of slots, and
/// the action leaves the current slot in place.
pub proof fn lemma_recreation_keeps_slots(s: SchedulerState, event: Event)
    requires
        s.wf(),
    ensures
        s.transition(event).1 is RecreateSwapchain ==> s.transition(event).0.fences == s.fences
            && s.transition(event).0.current_frame == s.current_frame,
        event is SwapchainRecreated ==> s.transition(event).0.fences == s.fences,
        s.transition(event).0.slots == s.slots,
        s.transition(event).0.has_compute == s.has_compute,
{
}

/// Commands for a slot are recorded only after its fence was waited for
/// and reset, and no fence is waited for that was reset without a
/// submission.
pub proof fn lemma_fence_discipline(s: SchedulerState, event: Event)
    requires
        s.wf(),
    ensures
        s.transition(event).1 matches Action::RecordAndSubmit { slot, .. } ==> slot
            == s.current_frame && s.fences[slot as int] == FenceState::Signaled
            && s.transition(event).0.fences[slot as int] == FenceState::Reset,
        s.transition(event).1 matches Action::WaitFence { slot, .. } ==> slot == s.current_frame
            && s.fences[slot as int] != FenceState::Reset,
{
}

/// A frame whose acquisition finds the surface stale is abandoned: the
/// swapchain is rebuilt, nothing is recorded, submitted or presented, and
/// the scheduler is idle in the next slot.
pub proof fn lemma_stale_surface_abandons_frame(s: SchedulerState)
    requires
        s.wf(),
        s.phase == Phase::AcquireImage,
    ensures
        s.transition(Event::OutOfDate).1 == s.recreate(),
        s.transition(Event::OutOfDate).0.transition(Event::SwapchainRecreated).1
            == (Action::FrameDone { presented: false }),
        s.transition(Event::OutOfDate).0.transition(Event::SwapchainRecreated).0 == s.advanced(),
{
}

} // verus!
