//! Hotkeys of the sending side: each action is bound to one key, and pressing
//! that key toggles the action on or off.

use vstd::prelude::*;

verus! {

#[derive(Clone, Copy, PartialEq, Eq, Debug, Structural)]
pub enum HotkeyAction {
    /// Stop taking new frames while on.
    Pause,
    /// Show the placeholder picture instead of the screen while on.
    Hide,
    /// Leave streaming and go back to the main menu.
    Terminate,
}

/// A key, by the code the display layer gives it, and whether its action is on.
#[derive(Clone, Copy, PartialEq, Eq, Debug, Structural)]
pub struct Binding {
    pub key: u32,
    pub active: bool,
}

#[derive(Clone, Copy, PartialEq, Eq, Debug, Structural)]
pub struct Hotkeys {
    pub pause: Binding,
    pub hide: Binding,
    pub terminate: Binding,
}

/// A binding after `key` was pressed: toggled when it is the bound key.
pub open spec fn pressed(b: Binding, key: u32) -> Binding {
    Binding { key: b.key, active: if b.key == key { !b.active } else { b.active } }
}

impl Hotkeys {
    pub open spec fn binding(self, action: HotkeyAction) -> Binding {
        match action {
            HotkeyAction::Pause => self.pause,
            HotkeyAction::Hide => self.hide,
            HotkeyAction::Terminate => self.terminate,
        }
    }

    /// These hotkeys with the binding of `action` replaced by `b`.
    pub open spec fn with_binding(self, action: HotkeyAction, b: Binding) -> Hotkeys {
        match action {
            HotkeyAction::Pause => Hotkeys { pause: b, ..self },
            HotkeyAction::Hide => Hotkeys { hide: b, ..self },
            HotkeyAction::Terminate => Hotkeys { terminate: b, ..self },
        }
    }

    /// All three actions bound as given and off.
    pub fn new(pause_key: u32, hide_key: u32, terminate_key: u32) -> (r: Hotkeys)
        ensures
            r.pause == (Binding { key: pause_key, active: false }),
            r.hide == (Binding { key: hide_key, active: false }),
            r.terminate == (Binding { key: terminate_key, active: false }),
    {
        Hotkeys {
            pause: Binding { key: pause_key, active: false },
            hide: Binding { key: hide_key, active: false },
            terminate: Binding { key: terminate_key, active: false },
        }
    }

    /// Toggles every action bound to `key`.
    pub fn key_pressed(&mut self, key: u32)
        ensures
            final(self).pause == pressed(old(self).pause, key),
            final(self).hide == pressed(old(self).hide, key),
            final(self).terminate == pressed(old(self).terminate, key),
    {
        self.pause = toggle_if(self.pause, key);
        self.hide = toggle_if(self.hide, key);
        self.terminate = toggle_if(self.terminate, key);
    }

    /// Binds `action` to `key`, leaving whether it is on and the other bindings alone.
    pub fn rebind(&mut self, action: HotkeyAction, key: u32)
        ensures
            *final(self) == old(self).with_binding(
                action,
                Binding { key, active: old(self).binding(action).active },
            ),
    {
        match action {
            HotkeyAction::Pause => self.pause.key = key,
            HotkeyAction::Hide => self.hide.key = key,
            HotkeyAction::Terminate => self.terminate.key = key,
        }
    }

    /// Switches `action` off.
    pub fn clear(&mut self, action: HotkeyAction)
        ensures
            *final(self) == old(self).with_binding(
                action,
                Binding { key: old(self).binding(action).key, active: false },
            ),
    {
        match action {
            HotkeyAction::Pause => self.pause.active = false,
            HotkeyAction::Hide => self.hide.active = false,
            HotkeyAction::Terminate => self.terminate.active = false,
        }
    }

    pub fn is_active(&self, action: HotkeyAction) -> (r: bool)
        ensures
            r == self.binding(action).active,
    {
        match action {
            HotkeyAction::Pause => self.pause.active,
            HotkeyAction::Hide => self.hide.active,
            HotkeyAction::Terminate => self.terminate.active,
        }
    }

    /// New frames are taken only while neither paused nor hidden.
    pub fn capture_allowed(&self) -> (r: bool)
        ensures
            r == (!self.pause.active && !self.hide.active),
    {
        !self.pause.active && !self.hide.active
    }
}

fn toggle_if(b: Binding, key: u32) -> (r: Binding)
    ensures
        r == pressed(b, key),
{
    if b.key == key {
        Binding { key: b.key, active: !b.active }
    } else {
        b
    }
}

} // verus!
