//! Camera movement commands: each carries the direction of a move along one
//! axis of the camera.

use vstd::prelude::*;

verus! {

/// Moves the camera along its forward axis, forwards or backwards.
#[derive(Clone, Copy, Debug, PartialEq, Eq, Structural)]
pub struct MoveForwardCameraCommand {
    is_forward: bool,
}

impl MoveForwardCameraCommand {
    /// Whether the move goes forwards.
    pub closed spec fn spec_is_forward(&self) -> bool {
        self.is_forward
    }

    /// The command that `new` makes.
    pub closed spec fn spec_new(is_forward: bool) -> Self {
        MoveForwardCameraCommand { is_forward }
    }

    /// A move forwards, or backwards where `is_forward` is false.
    pub fn new(is_forward: bool) -> (command: Self)
        ensures
            command == Self::spec_new(is_forward),
            command.spec_is_forward() == is_forward,
    {
        Self { is_forward }
    }

    /// Whether the move goes forwards.
    pub fn is_forward(&self) -> (forward: bool)
        ensures
            forward == self.spec_is_forward(),
    {
        self.is_forward
    }

    /// The factor on the camera's forward vector: 1 forwards, -1 backwards.
    pub fn direction(&self) -> (sign: i32)
        ensures
            sign == if self.spec_is_forward() {
                1i32
            } else {
                -1i32
            },
    {
        if self.is_forward {
            1
        } else {
            -1
        }
    }
}

/// Moves the camera along its right axis, to the right or to the left.
#[derive(Clone, Copy, Debug, PartialEq, Eq, Structural)]
pub struct MoveRightCameraCommand {
    is_right: bool,
}

impl MoveRightCameraCommand {
    /// Whether the move goes to the right.
    pub closed spec fn spec_is_right(&self) -> bool {
        self.is_right
    }

    /// The command that `new` makes.
    pub closed spec fn spec_new(is_right: bool) -> Self {
        MoveRightCameraCommand { is_right }
    }

    /// A move to the right, or to the left where `is_right` is false.
    pub fn new(is_right: bool) -> (command: Self)
        ensures
            command == Self::spec_new(is_right),
            command.spec_is_right() == is_right,
    {
        Self { is_right }
    }

    /// Whether the move goes to the right.
    pub fn is_right(&self) -> (right: bool)
        ensures
            right == self.spec_is_right(),
    {
        self.is_right
    }

    /// The factor on the camera's right vector: 1 to the right, -1 to the left.
    pub fn direction(&self) -> (sign: i32)
        ensures
            sign == if self.spec_is_right() {
                1i32
            } else {
                -1i32
            },
    {
        if self.is_right {
            1
        } else {
            -1
        }
    }
}

/// A camera command that a pressed key gives rise to.
#[derive(Clone, Copy, Debug, PartialEq, Eq, Structural)]
pub enum CameraCommand {
    MoveForward(MoveForwardCameraCommand),
    MoveRight(MoveRightCameraCommand),
}

} // verus!
