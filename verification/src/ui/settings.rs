//! The settings window's state machine: opened, closed, saved.

use vstd::prelude::*;

verus! {

/// Whether the settings window is open, and whether a save has just
/// happened and is still to be acted on.
pub struct SettingsWindow {
    visible: bool,
    just_saved: bool,
}

impl SettingsWindow {
    /// Whether the window is open.
    pub closed spec fn spec_visible(&self) -> bool {
        self.visible
    }

    /// Whether a save is still to be acted on.
    pub closed spec fn spec_just_saved(&self) -> bool {
        self.just_saved
    }

    pub fn new() -> (r: Self)
        ensures
            !r.spec_visible(),
            !r.spec_just_saved(),
    {
        Self { visible: false, just_saved: false }
    }

    /// Opens the window.
    pub fn open(&mut self)
        ensures
            final(self).spec_visible(),
            final(self).spec_just_saved() == old(self).spec_just_saved(),
    {
        self.visible = true;
    }

    /// Closes the window without saving.
    pub fn close(&mut self)
        ensures
            !final(self).spec_visible(),
            final(self).spec_just_saved() == old(self).spec_just_saved(),
    {
        self.visible = false;
    }

    /// Closes the window after a save, leaving the save to be acted on.
    pub fn mark_saved(&mut self)
        ensures
            !final(self).spec_visible(),
            final(self).spec_just_saved(),
    {
        self.visible = false;
        self.just_saved = true;
    }

    /// Whether the window is open.
    pub fn is_open(&self) -> (r: bool)
        ensures
            r == self.spec_visible(),
    {
        self.visible
    }

    /// Whether a save has just happened; asking clears the flag.
    pub fn take_just_saved(&mut self) -> (r: bool)
        ensures
            r == old(self).spec_just_saved(),
            !final(self).spec_just_saved(),
            final(self).spec_visible() == old(self).spec_visible(),
    {
        let was = self.just_saved;
        self.just_saved = false;
        was
    }
}

} // verus!
