//! The control window, from which request windows are opened.

use vstd::prelude::*;
use crate::ids::{next_window_id, IdAllocator};

verus! {

/// The control window: it has an id like every window, and closing it ends
/// the session.
#[derive(Debug)]
pub struct MainControls {
    id: usize,
    open: bool,
}

impl MainControls {
    /// The window's id.
    pub closed spec fn window_id(&self) -> nat {
        self.id as nat
    }

    /// Whether the window is on screen.
    pub closed spec fn on_screen(&self) -> bool {
        self.open
    }

    /// Opens the control window under a fresh id of `ids`.
    pub fn new(ids: &mut IdAllocator) -> (ctrls: Self)
        requires
            old(ids).upcoming() < usize::MAX,
        ensures
            ctrls.window_id() == old(ids).upcoming(),
            ctrls.on_screen(),
            final(ids).upcoming() == old(ids).upcoming() + 1,
    {
        MainControls { id: next_window_id(ids), open: true }
    }

    /// The window's id.
    pub fn id(&self) -> (id: usize)
        ensures
            id == self.window_id(),
    {
        self.id
    }

    /// Whether the window is on screen.
    pub fn is_open(&self) -> (open: bool)
        ensures
            open == self.on_screen(),
    {
        self.open
    }

    /// Takes the window off the screen.
    pub fn close(&mut self)
        ensures
            !final(self).on_screen(),
            final(self).window_id() == old(self).window_id(),
    {
        self.open = false;
    }
}

} // verus!
