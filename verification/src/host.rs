//! Reacting to the host's input events between steps.
use vstd::prelude::*;
use crate::cpu::CPU;
use crate::machine::Machine;

verus! {

broadcast use vstd::array::group_array_axioms;

/// A key of the host keyboard, as far as the interpreter cares.
#[derive(PartialEq, Eq, Structural, Clone, Copy, Debug)]
pub enum HostKey {
    Escape,
    Up,
    Left,
    Right,
    Down,
    Other,
}

/// An input event of the host window.
#[derive(PartialEq, Eq, Structural, Clone, Copy, Debug)]
pub enum HostEvent {
    /// The window was closed.
    Quit,
    /// A key went down; `Other` when the key is unknown or absent.
    KeyDown(HostKey),
    /// A key went up.
    KeyUp(HostKey),
    /// Anything else.
    Other,
}

/// The keypad key an arrow key stands for: Up is 2, Left 4, Right 6, Down 8.
pub open spec fn pad_index(k: HostKey) -> Option<int> {
    match k {
        HostKey::Up => Some(2),
        HostKey::Left => Some(4),
        HostKey::Right => Some(6),
        HostKey::Down => Some(8),
        _ => None,
    }
}

/// Whether the event ends the session: closing the window or pressing Escape.
pub open spec fn ends_session(e: HostEvent) -> bool {
    e == HostEvent::Quit || e == HostEvent::KeyDown(HostKey::Escape)
}

/// The state after the event: an arrow key going down or up presses or releases
/// its keypad key; every other event leaves the state alone.
pub open spec fn after_event(m: Machine, e: HostEvent) -> Machine {
    match e {
        HostEvent::KeyDown(k) => match pad_index(k) {
            Some(idx) => Machine { key: m.key.update(idx, true), ..m },
            None => m,
        },
        HostEvent::KeyUp(k) => match pad_index(k) {
            Some(idx) => Machine { key: m.key.update(idx, false), ..m },
            None => m,
        },
        _ => m,
    }
}

/// The keypad index for an arrow key, `None` for any other key.
fn pad_key(k: HostKey) -> (r: Option<usize>)
    ensures
        match pad_index(k) {
            Some(idx) => r == Some(idx as usize),
            None => r is None,
        },
{
    match k {
        HostKey::Up => Some(0x2),
        HostKey::Left => Some(0x4),
        HostKey::Right => Some(0x6),
        HostKey::Down => Some(0x8),
        _ => None,
    }
}

impl CPU {
    /// Applies one host event; returns whether the session goes on.
    pub fn handle_event(&mut self, event: HostEvent) -> (running: bool)
        ensures
            running == !ends_session(event),
            final(self)@ == after_event(old(self)@, event),
    {
        match event {
            HostEvent::Quit => false,
            HostEvent::KeyDown(k) => {
                if k == HostKey::Escape {
                    return false;
                }
                match pad_key(k) {
                    Some(idx) => self.key[idx] = true,
                    None => {},
                }
                true
            },
            HostEvent::KeyUp(k) => {
                match pad_key(k) {
                    Some(idx) => self.key[idx] = false,
                    None => {},
                }
                true
            },
            HostEvent::Other => true,
        }
    }
}

} // verus!
