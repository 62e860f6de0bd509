//! The command pattern: a receiver (`Light`), command objects that act on it,
//! and an invoker (`RemoteControl`) that replays whatever command it holds.

use vstd::prelude::*;

verus! {

/// The receiver: a light that is either on or off.
pub struct Light {
    is_on: bool,
}

impl View for Light {
    type V = bool;

    closed spec fn view(&self) -> bool {
        self.is_on
    }
}

impl Light {
    /// A light starts switched off.
    pub fn new() -> (l: Light)
        ensures
            !l@,
    {
        Light { is_on: false }
    }

    pub fn turn_on(&mut self)
        ensures
            final(self)@,
    {
        self.is_on = true;
    }

    pub fn turn_off(&mut self)
        ensures
            !final(self)@,
    {
        self.is_on = false;
    }

    pub fn is_on(&self) -> (r: bool)
        ensures
            r == self@,
    {
        self.is_on
    }
}

/// A command is an action on the light whose effect is pinned down by the
/// state it drives the light into.
pub trait Command: Sized {
    /// The state this command leaves the light in.
    spec fn target_state(&self) -> bool;

    fn execute(&self, light: &mut Light)
        ensures
            final(light)@ == self.target_state(),
    ;
}

/// Switches the light on.
pub struct TurnOnCommand {}

impl Command for TurnOnCommand {
    open spec fn target_state(&self) -> bool {
        true
    }

    fn execute(&self, light: &mut Light) {
        light.turn_on();
    }
}

/// Switches the light off.
pub struct TurnOffCommand {}

impl Command for TurnOffCommand {
    open spec fn target_state(&self) -> bool {
        false
    }

    fn execute(&self, light: &mut Light) {
        light.turn_off();
    }
}

/// The invoker: holds at most one command and replays it on demand.
pub struct RemoteControl<C> {
    command: Option<C>,
}

impl<C: Command> RemoteControl<C> {
    /// The command currently loaded, if any.
    pub closed spec fn loaded(self) -> Option<C> {
        self.command
    }

    /// A remote starts with no command loaded.
    pub fn new() -> (r: RemoteControl<C>)
        ensures
            r.loaded() is None,
    {
        RemoteControl { command: None }
    }

    pub fn set_command(&mut self, command: C)
        ensures
            final(self).loaded() == Some(command),
    {
        self.command = Some(command);
    }

    /// Executes the loaded command on `light`; with nothing loaded, the
    /// light is untouched.
    pub fn press_button(&mut self, light: &mut Light)
        ensures
            final(self).loaded() == old(self).loaded(),
            match old(self).loaded() {
                Some(c) => final(light)@ == c.target_state(),
                None => final(light)@ == old(light)@,
            },
    {
        if let Some(command) = &self.command {
            command.execute(light);
        }
    }
}

} // verus!
