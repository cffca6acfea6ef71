//! Keyboard and mouse state: which way the player moves and how far the
//! mouse went since it was last looked at.
use vstd::prelude::*;

verus! {

/// The keys the engine reacts to.
#[derive(Clone, Copy, Debug, PartialEq, Eq, Structural)]
pub enum Key {
    W,
    A,
    S,
    D,
    E,
    T,
    Space,
    Escape,
    Other,
}

/// The input state as contracts see it.
pub struct InputView {
    pub mouse_prev_x: i32,
    pub mouse_prev_y: i32,
    pub mouse_diff_x: i32,
    pub mouse_diff_y: i32,
    pub forward: i8,
    pub right: i8,
    pub key_forward: bool,
    pub key_right: bool,
    pub key_back: bool,
    pub key_left: bool,
    pub key_up: bool,
}

/// 1 for a held key, 0 for a released one.
pub open spec fn held(key: bool) -> i8 {
    if key {
        1
    } else {
        0
    }
}

impl InputView {
    /// The state after `key` went down: the key is held, and the axis it
    /// belongs to points its way.
    pub open spec fn press(self, key: Key) -> Self {
        match key {
            Key::W => InputView { key_forward: true, forward: 1, ..self },
            Key::S => InputView { key_back: true, forward: -1i8, ..self },
            Key::D => InputView { key_right: true, right: 1, ..self },
            Key::A => InputView { key_left: true, right: -1i8, ..self },
            Key::Space => InputView { key_up: true, ..self },
            _ => self,
        }
    }

    /// The state after `key` went up: the key is no longer held, and the
    /// axis it belongs to points the opposite way if the opposite key is
    /// held, else nowhere.
    pub open spec fn release(self, key: Key) -> Self {
        match key {
            Key::W => InputView { key_forward: false, forward: (-held(self.key_back)) as i8, ..self },
            Key::S => InputView { key_back: false, forward: held(self.key_forward), ..self },
            Key::D => InputView { key_right: false, right: (-held(self.key_left)) as i8, ..self },
            Key::A => InputView { key_left: false, right: held(self.key_right), ..self },
            Key::Space => InputView { key_up: false, ..self },
            _ => self,
        }
    }

    /// The state after the mouse was seen at `(x, y)`.
    pub open spec fn mouse(self, x: i32, y: i32) -> Self {
        InputView {
            mouse_diff_x: (x - self.mouse_prev_x) as i32,
            mouse_diff_y: (y - self.mouse_prev_y) as i32,
            mouse_prev_x: x,
            mouse_prev_y: y,
            ..self
        }
    }
}

pub struct InputHandler {
    mouse_prev_x: i32,
    mouse_prev_y: i32,
    mouse_diff_x: i32,
    mouse_diff_y: i32,
    forward: i8,
    right: i8,
    key_forward: bool,
    key_right: bool,
    key_back: bool,
    key_left: bool,
    key_up: bool,
}

impl View for InputHandler {
    type V = InputView;

    closed spec fn view(&self) -> InputView {
        InputView {
            mouse_prev_x: self.mouse_prev_x,
            mouse_prev_y: self.mouse_prev_y,
            mouse_diff_x: self.mouse_diff_x,
            mouse_diff_y: self.mouse_diff_y,
            forward: self.forward,
            right: self.right,
            key_forward: self.key_forward,
            key_right: self.key_right,
            key_back: self.key_back,
            key_left: self.key_left,
            key_up: self.key_up,
        }
    }
}

fn bool_to_i8(b: bool) -> (r: i8)
    ensures
        r == held(b),
{
    if b {
        1
    } else {
        0
    }
}

impl InputHandler {
    /// No key is held, and the mouse is at `mouse_prev` and has not moved.
    pub fn new(mouse_prev: (i32, i32)) -> (r: Self)
        ensures
            r@ == (InputView {
                mouse_prev_x: mouse_prev.0,
                mouse_prev_y: mouse_prev.1,
                mouse_diff_x: 0,
                mouse_diff_y: 0,
                forward: 0,
                right: 0,
                key_forward: false,
                key_right: false,
                key_back: false,
                key_left: false,
                key_up: false,
            }),
    {
        let (mouse_prev_x, mouse_prev_y) = mouse_prev;
        Self {
            mouse_prev_x,
            mouse_prev_y,
            mouse_diff_x: 0,
            mouse_diff_y: 0,
            forward: 0,
            right: 0,
            key_forward: false,
            key_right: false,
            key_back: false,
            key_left: false,
            key_up: false,
        }
    }

    /// Records how far the mouse went since it was last seen.
    pub fn handle_mouse(&mut self, mouse_pos: (i32, i32))
        requires
            i32::MIN <= mouse_pos.0 - old(self)@.mouse_prev_x <= i32::MAX,
            i32::MIN <= mouse_pos.1 - old(self)@.mouse_prev_y <= i32::MAX,
        ensures
            final(self)@ == old(self)@.mouse(mouse_pos.0, mouse_pos.1),
    {
        let (x, y) = mouse_pos;
        self.mouse_diff_x = x - self.mouse_prev_x;
        self.mouse_diff_y = y - self.mouse_prev_y;
        self.mouse_prev_x = x;
        self.mouse_prev_y = y;
    }

    pub fn handle_key_press(&mut self, key: Key)
        ensures
            final(self)@ == old(self)@.press(key),
    {
        match key {
            Key::W => {
                self.key_forward = true;
                self.forward = 1;
            },
            Key::S => {
                self.key_back = true;
                self.forward = -1;
            },
            Key::D => {
                self.key_right = true;
                self.right = 1;
            },
            Key::A => {
                self.key_left = true;
                self.right = -1;
            },
            Key::Space => {
                self.key_up = true;
            },
            _ => (),
        }
    }

    pub fn handle_key_release(&mut self, key: Key)
        ensures
            final(self)@ == old(self)@.release(key),
    {
        match key {
            Key::W => {
                self.key_forward = false;
                self.forward = -bool_to_i8(self.key_back);
            },
            Key::S => {
                self.key_back = false;
                self.forward = bool_to_i8(self.key_forward);
            },
            Key::D => {
                self.key_right = false;
                self.right = -bool_to_i8(self.key_left);
            },
            Key::A => {
                self.key_left = false;
                self.right = bool_to_i8(self.key_right);
            },
            Key::Space => {
                self.key_up = false;
            },
            _ => (),
        }
    }

    /// 1 forwards, -1 backwards, 0 neither.
    pub fn forward(&self) -> (r: i8)
        ensures
            r == self@.forward,
    {
        self.forward
    }

    /// 1 to the right, -1 to the left, 0 neither.
    pub fn right(&self) -> (r: i8)
        ensures
            r == self@.right,
    {
        self.right
    }

    pub fn mouse_diff_x(&self) -> (r: i32)
        ensures
            r == self@.mouse_diff_x,
    {
        self.mouse_diff_x
    }

    pub fn mouse_diff_y(&self) -> (r: i32)
        ensures
            r == self@.mouse_diff_y,
    {
        self.mouse_diff_y
    }
}

/// What the window reports.
#[derive(Clone, Copy, Debug, PartialEq, Eq, Structural)]
pub enum Event {
    KeyPress(Key),
    KeyRelease(Key),
    MouseMove(i32, i32),
    WindowResize(u32, u32),
    /// Anything the engine does not react to.
    Ignored,
}

/// What the main loop does about an event, besides the change to the
/// input state.
#[derive(Clone, Copy, Debug, PartialEq, Eq, Structural)]
pub enum Reaction {
    Nothing,
    /// Leave the main loop.
    Stop,
    /// Capture the mouse.
    CenterMouse,
    /// Let the mouse go.
    UncenterMouse,
    /// Tell camera and renderer the new extent of the window.
    Resize(u32, u32),
}

/// The reaction to an event.
pub open spec fn reaction(event: Event) -> Reaction {
    match event {
        Event::KeyPress(Key::Escape) => Reaction::Stop,
        Event::KeyPress(Key::T) => Reaction::CenterMouse,
        Event::KeyPress(Key::E) => Reaction::UncenterMouse,
        Event::WindowResize(w, h) => Reaction::Resize(w, h),
        _ => Reaction::Nothing,
    }
}

/// The input state after an event: escape, `T` and `E` are commands and
/// leave it alone, every other key goes to the input state.
pub open spec fn after_event(input: InputView, event: Event) -> InputView {
    match event {
        Event::KeyPress(key) => if reaction(event) is Nothing {
            input.press(key)
        } else {
            input
        },
        Event::KeyRelease(key) => input.release(key),
        _ => input,
    }
}

/// Handles one event of the window.
pub fn handle_event(event: Event, input: &mut InputHandler) -> (r: Reaction)
    ensures
        r == reaction(event),
        final(input)@ == after_event(old(input)@, event),
{
    match event {
        Event::KeyPress(Key::Escape) => Reaction::Stop,
        Event::KeyPress(Key::T) => Reaction::CenterMouse,
        Event::KeyPress(Key::E) => Reaction::UncenterMouse,
        Event::KeyPress(key) => {
            input.handle_key_press(key);
            Reaction::Nothing
        },
        Event::KeyRelease(key) => {
            input.handle_key_release(key);
            Reaction::Nothing
        },
        Event::MouseMove(_, _) => Reaction::Nothing,
        Event::WindowResize(w, h) => Reaction::Resize(w, h),
        Event::Ignored => Reaction::Nothing,
    }
}

} // verus!
