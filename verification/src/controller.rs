//! Keyboard state of the camera controls and the commands that it gives rise
//! to each frame.

use vstd::prelude::*;
use crate::camera_commands::{CameraCommand, MoveForwardCameraCommand, MoveRightCameraCommand};

verus! {

/// What happened to a key.
#[derive(Clone, Copy, Debug, PartialEq, Eq, Structural)]
pub enum KeyboardAction {
    Pressed,
    Released,
}

/// The keys that move the camera.
#[derive(Clone, Copy, Debug, PartialEq, Eq, Structural)]
pub enum MoveKey {
    /// Forwards.
    W,
    /// Backwards.
    S,
    /// To the right.
    D,
    /// To the left.
    A,
}

/// Which of the movement keys are held down.
#[derive(Clone, Copy, Debug, PartialEq, Eq, Structural)]
pub struct Controller {
    pub w: bool,
    pub s: bool,
    pub d: bool,
    pub a: bool,
}

impl Controller {
    /// Whether `key` is held down.
    pub open spec fn is_pressed(self, key: MoveKey) -> bool {
        match key {
            MoveKey::W => self.w,
            MoveKey::S => self.s,
            MoveKey::D => self.d,
            MoveKey::A => self.a,
        }
    }

    /// The commands of the keys held down, in the order W, S, D, A.
    pub open spec fn spec_active_commands(self) -> Seq<CameraCommand> {
        let forward = if self.w {
            seq![CameraCommand::MoveForward(MoveForwardCameraCommand::spec_new(true))]
        } else {
            Seq::empty()
        };
        let backward = if self.s {
            seq![CameraCommand::MoveForward(MoveForwardCameraCommand::spec_new(false))]
        } else {
            Seq::empty()
        };
        let right = if self.d {
            seq![CameraCommand::MoveRight(MoveRightCameraCommand::spec_new(true))]
        } else {
            Seq::empty()
        };
        let left = if self.a {
            seq![CameraCommand::MoveRight(MoveRightCameraCommand::spec_new(false))]
        } else {
            Seq::empty()
        };
        forward + backward + right + left
    }

    /// A controller with no key held down.
    pub fn new() -> (controller: Self)
        ensures
            controller == (Controller { w: false, s: false, d: false, a: false }),
    {
        Controller { w: false, s: false, d: false, a: false }
    }

    /// Records that `key` was pressed or released. The other keys keep their
    /// state.
    pub fn update_key(&mut self, key: MoveKey, action: KeyboardAction)
        ensures
            final(self).is_pressed(key) == (action == KeyboardAction::Pressed),
            forall|other: MoveKey|
                other != key ==> final(self).is_pressed(other) == old(self).is_pressed(other),
    {
        let pressed: bool = match action {
            KeyboardAction::Pressed => true,
            KeyboardAction::Released => false,
        };
        match key {
            MoveKey::W => {
                self.w = pressed;
            },
            MoveKey::S => {
                self.s = pressed;
            },
            MoveKey::D => {
                self.d = pressed;
            },
            MoveKey::A => {
                self.a = pressed;
            },
        }
    }

    /// The commands of the keys held down, in the order W, S, D, A.
    pub fn get_active_commands(&self) -> (commands: Vec<CameraCommand>)
        ensures
            commands@ == self.spec_active_commands(),
    {
        let mut commands: Vec<CameraCommand> = Vec::new();
        if self.w {
            commands.push(CameraCommand::MoveForward(MoveForwardCameraCommand::new(true)));
        }
        if self.s {
            commands.push(CameraCommand::MoveForward(MoveForwardCameraCommand::new(false)));
        }
        if self.d {
            commands.push(CameraCommand::MoveRight(MoveRightCameraCommand::new(true)));
        }
        if self.a {
            commands.push(CameraCommand::MoveRight(MoveRightCameraCommand::new(false)));
        }
        assert(commands@ =~= self.spec_active_commands());
        commands
    }
}

} // verus!
