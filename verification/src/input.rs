//! The state of keyboard and mouse, built from decoded window events.

use crate::config::WindowConfig;
use crate::units::{clamp_i32, saturate, UNIT};
use vstd::prelude::*;

verus! {

/// A key of the keyboard, by its code.
#[derive(Debug, Clone, Copy, PartialEq, Eq, Structural)]
pub struct Key(pub u32);

/// A button of the mouse.
#[derive(Debug, Clone, Copy, PartialEq, Eq, Structural)]
pub enum MouseButton {
    Left,
    Right,
    Middle,
    Other(u8),
}

#[derive(Debug, Clone, Copy, PartialEq, Eq, Structural)]
pub enum InputEvent {
    KeyDown(Key),
    KeyUp(Key),
    MouseDown(MouseButton),
    MouseUp(MouseButton),
}

#[derive(Debug, Clone, Copy, PartialEq, Eq, Structural)]
pub enum KeyState {
    Down,
    Up,
}

/// An event of the window, decoded.
#[derive(Debug, Clone, Copy, PartialEq, Eq, Structural)]
pub enum WindowInput {
    CloseRequested,
    KeyPressed(Key),
    KeyReleased(Key),
    MousePressed(MouseButton),
    MouseReleased(MouseButton),
    /// The cursor has moved to this place, in screen pixels from the upper
    /// left corner of the window.
    CursorMoved(i32, i32),
    /// Anything else.
    Ignored,
}

/// Which keys and buttons are held, what has changed since the events were
/// last cleared, and where the cursor is.
#[derive(Debug)]
pub struct InputState {
    pressed: Vec<Key>,
    mouse_pressed: Vec<MouseButton>,
    events: Vec<InputEvent>,
    cursor_position: (i32, i32),
}

/// The place of the cursor in the view, in pixels from its lower left
/// corner, for a cursor at `position` in the window.
pub open spec fn cursor_in_view(position: (i32, i32), scale: u32, height: u32) -> (i32, i32) {
    (
        crate::units::div_toward_zero(position.0 as int, scale as int) as i32,
        clamp_i32(height - crate::units::div_toward_zero(position.1 as int, scale as int)) as i32,
    )
}

/// The index of the first occurrence of `key` in `keys`.
fn position_of_key(keys: &Vec<Key>, key: Key) -> (r: Option<usize>)
    ensures
        r matches Some(i) ==> i < keys@.len() && keys@[i as int] == key && !keys@.take(
            i as int,
        ).contains(key),
        r is None ==> !keys@.contains(key),
{
    let mut i: usize = 0;
    while i < keys.len()
        invariant
            i <= keys.len(),
            forall|j: int| 0 <= j < i ==> keys@[j] != key,
        decreases keys.len() - i,
    {
        if keys[i] == key {
            return Some(i);
        }
        i += 1;
    }
    None
}

/// The index of the first occurrence of `button` in `buttons`.
fn position_of_button(buttons: &Vec<MouseButton>, button: MouseButton) -> (r: Option<usize>)
    ensures
        r matches Some(i) ==> i < buttons@.len() && buttons@[i as int] == button && !buttons@.take(
            i as int,
        ).contains(button),
        r is None ==> !buttons@.contains(button),
{
    let mut i: usize = 0;
    while i < buttons.len()
        invariant
            i <= buttons.len(),
            forall|j: int| 0 <= j < i ==> buttons@[j] != button,
        decreases buttons.len() - i,
    {
        if buttons[i] == button {
            return Some(i);
        }
        i += 1;
    }
    None
}

impl InputState {
    /// The keys that are held, in the order in which they were pressed.
    pub closed spec fn held_keys(&self) -> Seq<Key> {
        self.pressed@
    }

    /// The buttons that are held, in the order in which they were pressed.
    pub closed spec fn held_buttons(&self) -> Seq<MouseButton> {
        self.mouse_pressed@
    }

    /// What has changed since the events were last cleared.
    pub closed spec fn changes(&self) -> Seq<InputEvent> {
        self.events@
    }

    /// Where the cursor is in the view.
    pub closed spec fn cursor(&self) -> (i32, i32) {
        self.cursor_position
    }

    /// The value of the axis between the keys `negative` and `positive`:
    /// `-UNIT` or `UNIT` if only the one or only the other is held, else 0.
    pub open spec fn axis_value(&self, negative: Key, positive: Key) -> i32 {
        let n = self.held_keys().contains(negative);
        let p = self.held_keys().contains(positive);
        if n && !p {
            (-UNIT) as i32
        } else if p && !n {
            UNIT
        } else {
            0
        }
    }

    /// No key and no button is held, and nothing has changed.
    pub fn new() -> (s: Self)
        ensures
            s.held_keys().len() == 0,
            s.held_buttons().len() == 0,
            s.changes().len() == 0,
            s.cursor() == (0i32, 0i32),
    {
        InputState {
            pressed: Vec::new(),
            mouse_pressed: Vec::new(),
            events: Vec::new(),
            cursor_position: (0, 0),
        }
    }

    /// Forgets the changes.
    pub fn clear_events(&mut self)
        ensures
            final(self).changes().len() == 0,
            final(self).held_keys() == old(self).held_keys(),
            final(self).held_buttons() == old(self).held_buttons(),
            final(self).cursor() == old(self).cursor(),
    {
        self.events.clear();
    }

    /// Takes in one event of the window and says whether the window is to
    /// be closed.
    ///
    /// A key or button that goes down is held from then on, and the change
    /// is recorded, unless it was held already. One that goes up is held no
    /// longer, and the change is recorded, unless it was not held.
    pub fn update(&mut self, event: WindowInput, window_config: &WindowConfig) -> (fin: bool)
        requires
            window_config.scale > 0,
        ensures
            fin == (event == WindowInput::CloseRequested),
            final(self).held_keys() == (match event {
                WindowInput::KeyPressed(key) if !old(self).held_keys().contains(key) => old(
                    self,
                ).held_keys().push(key),
                WindowInput::KeyReleased(key) if old(self).held_keys().contains(key) => old(
                    self,
                ).held_keys().remove(first_index(old(self).held_keys(), key)),
                _ => old(self).held_keys(),
            }),
            final(self).held_buttons() == (match event {
                WindowInput::MousePressed(button) if !old(self).held_buttons().contains(button) => old(
                    self,
                ).held_buttons().push(button),
                WindowInput::MouseReleased(button) if old(self).held_buttons().contains(button) => old(
                    self,
                ).held_buttons().remove(first_index(old(self).held_buttons(), button)),
                _ => old(self).held_buttons(),
            }),
            final(self).changes() == (match event {
                WindowInput::KeyPressed(key) if !old(self).held_keys().contains(key) => old(
                    self,
                ).changes().push(InputEvent::KeyDown(key)),
                WindowInput::KeyReleased(key) if old(self).held_keys().contains(key) => old(
                    self,
                ).changes().push(InputEvent::KeyUp(key)),
                WindowInput::MousePressed(button) if !old(self).held_buttons().contains(button) => old(
                    self,
                ).changes().push(InputEvent::MouseDown(button)),
                WindowInput::MouseReleased(button) if old(self).held_buttons().contains(button) => old(
                    self,
                ).changes().push(InputEvent::MouseUp(button)),
                _ => old(self).changes(),
            }),
            final(self).cursor() == (match event {
                WindowInput::CursorMoved(x, y) => cursor_in_view(
                    (x, y),
                    window_config.scale,
                    window_config.size.1,
                ),
                _ => old(self).cursor(),
            }),
    {
        let mut fin = false;
        match event {
            WindowInput::CloseRequested => fin = true,
            WindowInput::KeyPressed(key) => {
                if position_of_key(&self.pressed, key).is_none() {
                    self.pressed.push(key);
                    self.events.push(InputEvent::KeyDown(key));
                }
            },
            WindowInput::KeyReleased(key) => {
                if let Some(idx) = position_of_key(&self.pressed, key) {
                    proof {
                        lemma_first_index(self.pressed@, key, idx as int);
                    }
                    self.pressed.remove(idx);
                    self.events.push(InputEvent::KeyUp(key));
                }
            },
            WindowInput::MousePressed(button) => {
                if position_of_button(&self.mouse_pressed, button).is_none() {
                    self.mouse_pressed.push(button);
                    self.events.push(InputEvent::MouseDown(button));
                }
            },
            WindowInput::MouseReleased(button) => {
                if let Some(idx) = position_of_button(&self.mouse_pressed, button) {
                    proof {
                        lemma_first_index(self.mouse_pressed@, button, idx as int);
                    }
                    self.mouse_pressed.remove(idx);
                    self.events.push(InputEvent::MouseUp(button));
                }
            },
            WindowInput::CursorMoved(x, y) => {
                let scaled_x = crate::units::div_i64(x as i64, window_config.scale);
                let scaled_y = crate::units::div_i64(y as i64, window_config.scale);
                self.cursor_position = (
                    scaled_x as i32,
                    saturate(window_config.size.1 as i64 - scaled_y),
                );
            },
            WindowInput::Ignored => (),
        }
        fin
    }

    /// Whether `key` is held.
    pub fn key(&self, key: Key) -> (r: KeyState)
        ensures
            (r == KeyState::Down) == self.held_keys().contains(key),
    {
        if position_of_key(&self.pressed, key).is_some() {
            KeyState::Down
        } else {
            KeyState::Up
        }
    }

    /// Whether `button` is held.
    pub fn mouse(&self, button: MouseButton) -> (r: KeyState)
        ensures
            (r == KeyState::Down) == self.held_buttons().contains(button),
    {
        if position_of_button(&self.mouse_pressed, button).is_some() {
            KeyState::Down
        } else {
            KeyState::Up
        }
    }

    /// The value of the axis between the keys `negative` and `positive`.
    pub fn axis(&self, negative: Key, positive: Key) -> (r: i32)
        ensures
            r == self.axis_value(negative, positive),
    {
        let n = position_of_key(&self.pressed, negative).is_some();
        let p = position_of_key(&self.pressed, positive).is_some();
        if n && !p {
            -UNIT
        } else if p && !n {
            UNIT
        } else {
            0
        }
    }

    /// What has changed since the events were last cleared.
    pub fn events(&self) -> (r: &[InputEvent])
        ensures
            r@ == self.changes(),
    {
        self.events.as_slice()
    }

    /// Where the cursor is in the view.
    pub fn cursor_position(&self) -> (r: (i32, i32))
        ensures
            r == self.cursor(),
    {
        self.cursor_position
    }
}

/// The index at which `v` first occurs in `s`.
pub open spec fn first_index<T>(s: Seq<T>, v: T) -> int
    recommends
        s.contains(v),
{
    choose|i: int| 0 <= i < s.len() && s[i] == v && !s.take(i).contains(v)
}

/// A value first occurs at one index only.
proof fn lemma_first_index<T>(s: Seq<T>, v: T, i: int)
    requires
        0 <= i < s.len(),
        s[i] == v,
        !s.take(i).contains(v),
    ensures
        s.contains(v),
        first_index(s, v) == i,
{
    let k = first_index(s, v);
    assert(s.contains(v));
    assert(0 <= k < s.len() && s[k] == v && !s.take(k).contains(v));
    if k < i {
        assert(s.take(i)[k] == v);
        assert(s.take(i).contains(v));
    }
    if k > i {
        assert(s.take(k)[i] == v);
        assert(s.take(k).contains(v));
    }
}

} // verus!
