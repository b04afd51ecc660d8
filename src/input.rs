use vstd::prelude::*;

use crate::types::{ScreenPos, Size2};

verus! {

/// Pixels the pointer may travel between press and release for a tap.
pub const TAP_TOLERANCE: i64 = 20;

#[derive(Clone, Copy, Debug, PartialEq, Eq, Structural)]
pub enum ElementState {
    Pressed,
    Released,
}

#[derive(Clone, Copy, Debug, PartialEq, Eq, Structural)]
pub enum MouseButton {
    Left,
    Right,
    Middle,
    Other,
}

/// The keys the screens react to; every other key is `Other`.
#[derive(Clone, Copy, Debug, PartialEq, Eq, Structural)]
pub enum Key {
    Q,
    Escape,
    W,
    Up,
    S,
    Down,
    D,
    Right,
    A,
    Left,
    I,
    Subtract,
    Key1,
    Add,
    Key2,
    Other,
}

#[derive(Clone, Copy, Debug, PartialEq, Eq, Structural)]
pub enum TouchPhase {
    Started,
    Moved,
    Ended,
}

/// One platform input event.
#[derive(Clone, Copy, Debug, PartialEq, Eq, Structural)]
pub enum InputEvent {
    /// The window was asked to close.
    Closed,
    /// The window has a new size.
    Resized(Size2),
    /// The pointer is now at this position.
    MouseMoved(ScreenPos),
    MouseInput { state: ElementState, button: MouseButton },
    /// Vertical scroll, in hundredths of a line.
    MouseWheel { delta_y: i32 },
    KeyboardInput { state: ElementState, key: Key },
    Touch { pos: ScreenPos, phase: TouchPhase },
    /// Anything the screens ignore.
    Other,
}

impl InputEvent {
    /// A release of the left mouse button.
    pub open spec fn is_lmb_release(self) -> bool {
        self == InputEvent::MouseInput { state: ElementState::Released, button: MouseButton::Left }
    }

    /// A release of `Q` or `Escape`.
    pub open spec fn is_quit_key(self) -> bool {
        self == InputEvent::KeyboardInput { state: ElementState::Released, key: Key::Q }
            || self == InputEvent::KeyboardInput { state: ElementState::Released, key: Key::Escape }
    }
}

/// What the screens know of the pointer.
#[derive(Clone, Copy, Debug, PartialEq, Eq, Structural)]
pub struct MouseState {
    pub pos: ScreenPos,
    pub last_press_pos: ScreenPos,
    pub is_left_button_pressed: bool,
    pub is_right_button_pressed: bool,
}

/// Input state shared by the screens: the pointer, the window size, and whether
/// the window was asked to close.
#[derive(Clone, Copy, Debug, PartialEq, Eq, Structural)]
pub struct InputState {
    pub mouse: MouseState,
    pub win_size: Size2,
    pub should_close: bool,
}

impl InputState {
    /// The state of a fresh window: pointer at the origin, no button pressed.
    pub open spec fn new_spec(win_size: Size2) -> InputState {
        InputState {
            mouse: MouseState {
                pos: ScreenPos { x: 0, y: 0 },
                last_press_pos: ScreenPos { x: 0, y: 0 },
                is_left_button_pressed: false,
                is_right_button_pressed: false,
            },
            win_size,
            should_close: false,
        }
    }

    pub fn new(win_size: Size2) -> (s: InputState)
        ensures
            s == InputState::new_spec(win_size),
            s.win_size == win_size,
            s.mouse.pos == (ScreenPos { x: 0, y: 0 }),
            s.mouse.last_press_pos == (ScreenPos { x: 0, y: 0 }),
            !s.mouse.is_left_button_pressed,
            !s.mouse.is_right_button_pressed,
            !s.should_close,
    {
        let origin = ScreenPos { x: 0, y: 0 };
        InputState {
            mouse: MouseState {
                pos: origin,
                last_press_pos: origin,
                is_left_button_pressed: false,
                is_right_button_pressed: false,
            },
            win_size,
            should_close: false,
        }
    }

    /// The state after the part of `event` that the screens see before handling it:
    /// button state, window size and close requests. The pointer position is
    /// still the previous one, so handlers can measure how far it moved.
    pub open spec fn before_event(self, event: InputEvent) -> InputState {
        match event {
            InputEvent::Closed => InputState { should_close: true, ..self },
            InputEvent::Resized(size) => InputState { win_size: size, ..self },
            InputEvent::MouseInput { state, button } => match (state, button) {
                (ElementState::Pressed, MouseButton::Left) => InputState {
                    mouse: MouseState {
                        is_left_button_pressed: true,
                        last_press_pos: self.mouse.pos,
                        ..self.mouse
                    },
                    ..self
                },
                (ElementState::Released, MouseButton::Left) => InputState {
                    mouse: MouseState { is_left_button_pressed: false, ..self.mouse },
                    ..self
                },
                (ElementState::Pressed, MouseButton::Right) => InputState {
                    mouse: MouseState { is_right_button_pressed: true, ..self.mouse },
                    ..self
                },
                (ElementState::Released, MouseButton::Right) => InputState {
                    mouse: MouseState { is_right_button_pressed: false, ..self.mouse },
                    ..self
                },
                _ => self,
            },
            InputEvent::Touch { pos, phase: TouchPhase::Started } => InputState {
                mouse: MouseState { is_left_button_pressed: true, last_press_pos: pos, ..self.mouse },
                ..self
            },
            _ => self,
        }
    }

    /// The state after the part of `event` that comes once it was handled: the
    /// pointer's new position, and the end of a touch.
    pub open spec fn after_event(self, event: InputEvent) -> InputState {
        match event {
            InputEvent::MouseMoved(pos) => InputState { mouse: MouseState { pos, ..self.mouse }, ..self },
            InputEvent::Touch { pos, phase } => match phase {
                TouchPhase::Ended => InputState {
                    mouse: MouseState { pos, is_left_button_pressed: false, ..self.mouse },
                    ..self
                },
                _ => InputState { mouse: MouseState { pos, ..self.mouse }, ..self },
            },
            _ => self,
        }
    }

    /// Applies the part of `event` that comes before handling.
    pub fn handle_event_pre(&mut self, event: &InputEvent)
        ensures
            *final(self) == old(self).before_event(*event),
    {
        match *event {
            InputEvent::Closed => {
                self.should_close = true;
            },
            InputEvent::Resized(size) => {
                self.win_size = size;
            },
            InputEvent::MouseInput { state, button } => match (state, button) {
                (ElementState::Pressed, MouseButton::Left) => {
                    self.mouse.is_left_button_pressed = true;
                    self.mouse.last_press_pos = self.mouse.pos;
                },
                (ElementState::Released, MouseButton::Left) => {
                    self.mouse.is_left_button_pressed = false;
                },
                (ElementState::Pressed, MouseButton::Right) => {
                    self.mouse.is_right_button_pressed = true;
                },
                (ElementState::Released, MouseButton::Right) => {
                    self.mouse.is_right_button_pressed = false;
                },
                _ => {},
            },
            InputEvent::Touch { pos, phase: TouchPhase::Started } => {
                self.mouse.is_left_button_pressed = true;
                self.mouse.last_press_pos = pos;
            },
            _ => {},
        }
    }

    /// Applies the part of `event` that comes after handling.
    pub fn handle_event_post(&mut self, event: &InputEvent)
        ensures
            *final(self) == old(self).after_event(*event),
    {
        match *event {
            InputEvent::MouseMoved(pos) => {
                self.mouse.pos = pos;
            },
            InputEvent::Touch { pos, phase } => {
                self.mouse.pos = pos;
                if phase == TouchPhase::Ended {
                    self.mouse.is_left_button_pressed = false;
                }
            },
            _ => {},
        }
    }
}

/// The pointer ended within `TAP_TOLERANCE` pixels of where it was pressed, on both axes.
pub open spec fn spec_is_tap(input: InputState) -> bool {
    let dx = input.mouse.pos.x - input.mouse.last_press_pos.x;
    let dy = input.mouse.pos.y - input.mouse.last_press_pos.y;
    -TAP_TOLERANCE < dx < TAP_TOLERANCE && -TAP_TOLERANCE < dy < TAP_TOLERANCE
}

/// Whether the last press and the current pointer position make a tap rather
/// than a swipe.
pub fn is_tap(input: &InputState) -> (r: bool)
    ensures
        r == spec_is_tap(*input),
{
    let dx = input.mouse.pos.x as i64 - input.mouse.last_press_pos.x as i64;
    let dy = input.mouse.pos.y as i64 - input.mouse.last_press_pos.y as i64;
    -TAP_TOLERANCE < dx && dx < TAP_TOLERANCE && -TAP_TOLERANCE < dy && dy < TAP_TOLERANCE
}

} // verus!
