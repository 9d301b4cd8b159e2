//! The event model and the input-state machine: translated window events
//! (keyboard, mouse, quit) and the pure transition that folds one event
//! into the application's input state. The surrounding loop that pumps
//! platform messages lives outside the core; it hands translated events in
//! and reads the state back.

use vstd::prelude::*;

verus! {

/// A mouse button.
#[derive(Clone, Copy, PartialEq, Eq, Structural, Debug)]
pub enum MouseButton {
    Left,
    Right,
    Middle,
}

impl MouseButton {
    /// The button's slot in the pressed-buttons table.
    pub open spec fn spec_as_usize(self) -> usize {
        match self {
            MouseButton::Left => 0usize,
            MouseButton::Right => 1usize,
            MouseButton::Middle => 2usize,
        }
    }

    pub fn as_usize(&self) -> (r: usize)
        ensures
            r == self.spec_as_usize(),
            r < 3,
    {
        match *self {
            MouseButton::Left => 0,
            MouseButton::Right => 1,
            MouseButton::Middle => 2,
        }
    }
}

/// A translated window event.
#[derive(Clone, Copy, PartialEq, Eq, Structural, Debug)]
pub enum Message {
    Quit,
    Silence,
    KeyDown(u32),
    KeyUp(u32),
    MouseUp(MouseButton, i32, i32),
    MouseDown(MouseButton, i32, i32),
    MouseMove(i32, i32),
}

/// An integer screen position.
#[derive(Clone, Copy, PartialEq, Eq, Structural, Debug)]
pub struct ScreenPoint {
    pub x: i32,
    pub y: i32,
}

/// The pressed state of the three mouse buttons and the pointer position.
pub struct MouseControls {
    pub button: Vec<bool>,
    pub point: ScreenPoint,
}

/// The pressed state of every key, indexed by key code.
pub struct KeyboardControls {
    pub key: Vec<bool>,
}

/// The part of the application state that input events drive: whether the
/// loop keeps running, the mouse state, the position where the current
/// drag started, and the keyboard state.
pub struct InputState {
    pub is_running: bool,
    pub mouse: MouseControls,
    pub mouse_start: ScreenPoint,
    pub keyboard: KeyboardControls,
}

impl InputState {
    /// Well-formedness: one slot per mouse button and one per key code.
    pub open spec fn wf(self) -> bool {
        &&& self.mouse.button@.len() == 3
        &&& self.keyboard.key@.len() == 512
    }

    /// A fresh state: running, nothing pressed, pointer at the origin.
    pub fn new() -> (s: InputState)
        ensures
            s.wf(),
            s.is_running == true,
            forall|i: int| 0 <= i < 3 ==> s.mouse.button@[i] == false,
            forall|i: int| 0 <= i < 512 ==> s.keyboard.key@[i] == false,
            s.mouse.point == (ScreenPoint { x: 0, y: 0 }),
            s.mouse_start == (ScreenPoint { x: 0, y: 0 }),
    {
        let mut button: Vec<bool> = Vec::new();
        let mut i: usize = 0;
        while i < 3
            invariant
                i <= 3,
                button@.len() == i,
                forall|j: int| 0 <= j < i ==> button@[j] == false,
            decreases 3 - i,
        {
            button.push(false);
            i = i + 1;
        }
        let mut key: Vec<bool> = Vec::new();
        let mut j: usize = 0;
        while j < 512
            invariant
                j <= 512,
                key@.len() == j,
                forall|i2: int| 0 <= i2 < j ==> key@[i2] == false,
            decreases 512 - j,
        {
            key.push(false);
            j = j + 1;
        }
        InputState {
            is_running: true,
            mouse: MouseControls { button, point: ScreenPoint { x: 0, y: 0 } },
            mouse_start: ScreenPoint { x: 0, y: 0 },
            keyboard: KeyboardControls { key },
        }
    }

    /// Folds one event into the state: quit stops the loop; key events
    /// toggle the key's slot; button events toggle the button's slot and
    /// move the pointer, a press also recording the drag start; pointer
    /// motion moves the pointer; silence changes nothing.
    pub fn process_input(&mut self, message: Message)
        requires
            old(self).wf(),
            message matches Message::KeyDown(k) ==> k < 512,
            message matches Message::KeyUp(k) ==> k < 512,
        ensures
            final(self).wf(),
            final(self).is_running == (match message {
                Message::Quit => false,
                _ => old(self).is_running,
            }),
            final(self).keyboard.key@ == (match message {
                Message::KeyDown(k) => old(self).keyboard.key@.update(k as int, true),
                Message::KeyUp(k) => old(self).keyboard.key@.update(k as int, false),
                _ => old(self).keyboard.key@,
            }),
            final(self).mouse.button@ == (match message {
                Message::MouseDown(b, _, _) => old(self).mouse.button@.update(
                    b.spec_as_usize() as int,
                    true,
                ),
                Message::MouseUp(b, _, _) => old(self).mouse.button@.update(
                    b.spec_as_usize() as int,
                    false,
                ),
                _ => old(self).mouse.button@,
            }),
            final(self).mouse.point == (match message {
                Message::MouseDown(_, x, y) => ScreenPoint { x, y },
                Message::MouseUp(_, x, y) => ScreenPoint { x, y },
                Message::MouseMove(x, y) => ScreenPoint { x, y },
                _ => old(self).mouse.point,
            }),
            final(self).mouse_start == (match message {
                Message::MouseDown(_, x, y) => ScreenPoint { x, y },
                _ => old(self).mouse_start,
            }),
    {
        match message {
            Message::Quit => {
                self.is_running = false;
            },
            Message::KeyDown(key) => {
                self.keyboard.key.set(key as usize, true);
            },
            Message::KeyUp(key) => {
                self.keyboard.key.set(key as usize, false);
            },
            Message::MouseDown(button, x, y) => {
                let slot = button.as_usize();
                self.mouse.button.set(slot, true);
                self.mouse.point.x = x;
                self.mouse.point.y = y;
                self.mouse_start.x = x;
                self.mouse_start.y = y;
            },
            Message::MouseUp(button, x, y) => {
                let slot = button.as_usize();
                self.mouse.button.set(slot, false);
                self.mouse.point.x = x;
                self.mouse.point.y = y;
            },
            Message::MouseMove(x, y) => {
                self.mouse.point.x = x;
                self.mouse.point.y = y;
            },
            Message::Silence => {},
        }
    }
}

} // verus!
