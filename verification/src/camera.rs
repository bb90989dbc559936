//! Camera state.
//!
//! The camera holds a position, a look-at target and a pair of yaw/pitch
//! offsets.  Input events arrive as discrete, already-debounced steps, so
//! every field moves in whole units and the state is exactly representable
//! in integers.  Deriving the floating-point view/projection matrix from
//! this state is the rendering layer's job; nothing here mutates the state
//! except [`Camera::apply_move`], and the target never moves at all.

use vstd::prelude::*;

verus! {

/// One discrete camera input event, as the input mapping hands it over:
/// directional keys move the position along an axis, arrow keys step the
/// yaw/pitch offsets.
#[derive(Clone, Copy, Debug, PartialEq, Eq, Structural)]
pub enum CameraMove {
    /// Step the position forward (`z + 1`).
    Forward,
    /// Step the position backward (`z - 1`).
    Backward,
    /// Step the position left (`x + 1`).
    Left,
    /// Step the position right (`x - 1`).
    Right,
    /// Raise the pitch offset (`rot_y + 1`).
    TiltUp,
    /// Lower the pitch offset (`rot_y - 1`).
    TiltDown,
    /// Raise the yaw offset (`rot_x + 1`).
    TurnLeft,
    /// Lower the yaw offset (`rot_x - 1`).
    TurnRight,
}

/// The camera's full state, in whole units.
#[derive(Clone, Copy, Debug, PartialEq, Eq, Structural)]
pub struct Camera {
    pub pos_x: i32,
    pub pos_y: i32,
    pub pos_z: i32,
    pub target_x: i32,
    pub target_y: i32,
    pub target_z: i32,
    pub rot_x: i32,
    pub rot_y: i32,
}

impl Camera {
    /// How a single input event changes the camera: exactly one field moves
    /// by exactly one unit, and the target is untouched.
    pub open spec fn moved(pre: Camera, m: CameraMove, post: Camera) -> bool {
        &&& post.pos_x == pre.pos_x + (match m {
            CameraMove::Left => 1int,
            CameraMove::Right => -1int,
            _ => 0int,
        })
        &&& post.pos_y == pre.pos_y
        &&& post.pos_z == pre.pos_z + (match m {
            CameraMove::Forward => 1int,
            CameraMove::Backward => -1int,
            _ => 0int,
        })
        &&& post.target_x == pre.target_x
        &&& post.target_y == pre.target_y
        &&& post.target_z == pre.target_z
        &&& post.rot_x == pre.rot_x + (match m {
            CameraMove::TurnLeft => 1int,
            CameraMove::TurnRight => -1int,
            _ => 0int,
        })
        &&& post.rot_y == pre.rot_y + (match m {
            CameraMove::TiltUp => 1int,
            CameraMove::TiltDown => -1int,
            _ => 0int,
        })
    }

    /// The camera the scene starts with: a few units up and back from the
    /// origin, looking at the origin, with no yaw/pitch offset.
    pub fn new() -> (cam: Camera)
        ensures
            cam.pos_x == 0,
            cam.pos_y == 4,
            cam.pos_z == -5,
            cam.target_x == 0,
            cam.target_y == 0,
            cam.target_z == 0,
            cam.rot_x == 0,
            cam.rot_y == 0,
    {
        Camera {
            pos_x: 0,
            pos_y: 4,
            pos_z: -5,
            target_x: 0,
            target_y: 0,
            target_z: 0,
            rot_x: 0,
            rot_y: 0,
        }
    }

    /// Applies one input event between frames.
    ///
    /// The preconditions only rule out stepping a field past the integer
    /// machine limits.
    pub fn apply_move(&mut self, m: CameraMove)
        requires
            m == CameraMove::Forward ==> old(self).pos_z < i32::MAX,
            m == CameraMove::Backward ==> old(self).pos_z > i32::MIN,
            m == CameraMove::Left ==> old(self).pos_x < i32::MAX,
            m == CameraMove::Right ==> old(self).pos_x > i32::MIN,
            m == CameraMove::TiltUp ==> old(self).rot_y < i32::MAX,
            m == CameraMove::TiltDown ==> old(self).rot_y > i32::MIN,
            m == CameraMove::TurnLeft ==> old(self).rot_x < i32::MAX,
            m == CameraMove::TurnRight ==> old(self).rot_x > i32::MIN,
        ensures
            Camera::moved(*old(self), m, *final(self)),
    {
        match m {
            CameraMove::Forward => {
                self.pos_z = self.pos_z + 1;
            },
            CameraMove::Backward => {
                self.pos_z = self.pos_z - 1;
            },
            CameraMove::Left => {
                self.pos_x = self.pos_x + 1;
            },
            CameraMove::Right => {
                self.pos_x = self.pos_x - 1;
            },
            CameraMove::TiltUp => {
                self.rot_y = self.rot_y + 1;
            },
            CameraMove::TiltDown => {
                self.rot_y = self.rot_y - 1;
            },
            CameraMove::TurnLeft => {
                self.rot_x = self.rot_x + 1;
            },
            CameraMove::TurnRight => {
                self.rot_x = self.rot_x - 1;
            },
        }
    }
}

} // verus!
