use std::collections::HashMap;
use vstd::prelude::*;

verus! {

broadcast use vstd::std_specs::hash::group_hash_axioms;

/// A keyboard key, by the number of its virtual key code.
pub type KeyCode = u32;

/// A mouse button.
#[derive(Clone, Copy, Debug, PartialEq, Eq, Structural)]
pub enum MouseButton {
    Left,
    Right,
    Middle,
    Other(u16),
}

/// The number under which a mouse button's state is kept.
pub open spec fn button_code(b: MouseButton) -> u32 {
    match b {
        MouseButton::Left => 0,
        MouseButton::Right => 1,
        MouseButton::Middle => 2,
        MouseButton::Other(n) => (3 + n) as u32,
    }
}

impl MouseButton {
    pub fn code(&self) -> (r: u32)
        ensures
            r == button_code(*self),
    {
        match self {
            MouseButton::Left => 0,
            MouseButton::Right => 1,
            MouseButton::Middle => 2,
            MouseButton::Other(n) => 3 + *n as u32,
        }
    }
}

/// Distinct buttons are kept under distinct numbers.
pub proof fn lemma_button_code_injective(a: MouseButton, b: MouseButton)
    ensures
        button_code(a) == button_code(b) ==> a == b,
{
}

/// Whether a key (or button) is currently down: the last reported state,
/// and up when nothing was reported.
pub open spec fn is_down(states: Map<u32, bool>, code: u32) -> bool {
    states.contains_key(code) && states[code]
}

/// The last reported state of each key and mouse button.
pub struct InputSystem {
    key_state: HashMap<KeyCode, bool>,
    mouse_buttons: HashMap<u32, bool>,
}

impl InputSystem {
    pub closed spec fn keys(&self) -> Map<KeyCode, bool> {
        self.key_state@
    }

    pub closed spec fn buttons(&self) -> Map<u32, bool> {
        self.mouse_buttons@
    }

    pub fn new() -> (r: Self)
        ensures
            r.keys() == Map::<KeyCode, bool>::empty(),
            r.buttons() == Map::<u32, bool>::empty(),
    {
        InputSystem { key_state: HashMap::new(), mouse_buttons: HashMap::new() }
    }

    /// Record a keyboard event: the key, when it has a virtual key code, is
    /// now down if `pressed` and up otherwise.
    pub fn process_event(&mut self, key: Option<KeyCode>, pressed: bool)
        ensures
            final(self).keys() == (match key {
                Some(k) => old(self).keys().insert(k, pressed),
                None => old(self).keys(),
            }),
            final(self).buttons() == old(self).buttons(),
    {
        if let Some(k) = key {
            self.key_state.insert(k, pressed);
        }
    }

    /// Record a mouse button event.
    pub fn process_mouse_event(&mut self, button: &MouseButton, pressed: bool)
        ensures
            final(self).buttons() == old(self).buttons().insert(button_code(*button), pressed),
            final(self).keys() == old(self).keys(),
    {
        let code = button.code();
        self.mouse_buttons.insert(code, pressed);
    }

    pub fn get_key_state(&self, key: KeyCode) -> (r: bool)
        ensures
            r == is_down(self.keys(), key),
    {
        match self.key_state.get(&key) {
            Some(state) => *state,
            None => false,
        }
    }

    pub fn get_mouse_button_state(&self, button: &MouseButton) -> (r: bool)
        ensures
            r == is_down(self.buttons(), button_code(*button)),
    {
        let code = button.code();
        match self.mouse_buttons.get(&code) {
            Some(state) => *state,
            None => false,
        }
    }
}

/// After a key is reported, reading it gives the reported state, and every
/// other key reads as before.
pub proof fn law_key_read_after_write(s0: &InputSystem, s1: &InputSystem, key: KeyCode, pressed: bool, other: KeyCode)
    requires
        s1.keys() == s0.keys().insert(key, pressed),
    ensures
        is_down(s1.keys(), key) == pressed,
        other != key ==> is_down(s1.keys(), other) == is_down(s0.keys(), other),
{
}

/// After a mouse button is reported, reading it gives the reported state,
/// and every other button reads as before.
pub proof fn law_button_read_after_write(
    s0: &InputSystem,
    s1: &InputSystem,
    button: MouseButton,
    pressed: bool,
    other: MouseButton,
)
    requires
        s1.buttons() == s0.buttons().insert(button_code(button), pressed),
    ensures
        is_down(s1.buttons(), button_code(button)) == pressed,
        other != button ==> is_down(s1.buttons(), button_code(other)) == is_down(s0.buttons(), button_code(other)),
{
}

} // verus!
