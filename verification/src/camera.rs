//! Camera parameters. The camera is a small value type; each frame the
//! driver recomputes its projection matrix (scalar math outside this core)
//! and pushes the packed matrix through the renderer's camera buffer.

use vstd::prelude::*;

verus! {

/// The bit pattern a device scalar reads as minus one.
pub const SCALAR_NEG_ONE_BITS: u32 = 0xBF80_0000;

/// How the camera derives its view: aimed at a fixed point, or along a
/// fixed direction. Components are 32-bit scalar patterns.
#[derive(Clone, Copy, Debug, PartialEq, Eq)]
pub enum CameraType {
    LookAt([u32; 3]),
    LookTo([u32; 3]),
}

impl Default for CameraType {
    /// Looking along the negative depth axis.
    fn default() -> (t: Self)
        ensures
            t matches CameraType::LookTo(d) && d@ == seq![0u32, 0u32, SCALAR_NEG_ONE_BITS],
    {
        let d: [u32; 3] = [0, 0, SCALAR_NEG_ONE_BITS];
        proof {
            assert(d@ =~= seq![0u32, 0u32, SCALAR_NEG_ONE_BITS]);
        }
        CameraType::LookTo(d)
    }
}

/// Camera parameters: position, view mode, field of view and aspect ratio,
/// each component held as the 32-bit pattern of the scalar it stands for.
#[derive(Clone, Copy, Debug, PartialEq, Eq)]
pub struct Camera {
    pub pos: [u32; 3],
    pub ty: CameraType,
    pub fov: u32,
    pub aspect: u32,
}

impl Camera {
    /// Records a freshly computed aspect ratio (its scalar bit pattern);
    /// the frame driver derives it from the window size on resize.
    pub fn update_aspect(&mut self, aspect: u32)
        ensures
            final(self).aspect == aspect,
            final(self).pos == old(self).pos,
            final(self).ty == old(self).ty,
            final(self).fov == old(self).fov,
    {
        self.aspect = aspect;
    }
}

impl Default for Camera {
    /// At the origin, looking along the negative depth axis, with zeroed
    /// field of view and aspect until the driver fills them in.
    fn default() -> (c: Self)
        ensures
            c.pos@ == seq![0u32, 0u32, 0u32],
            c.ty matches CameraType::LookTo(d) && d@ == seq![0u32, 0u32, SCALAR_NEG_ONE_BITS],
            c.fov == 0,
            c.aspect == 0,
    {
        let pos: [u32; 3] = [0, 0, 0];
        proof {
            assert(pos@ =~= seq![0u32, 0u32, 0u32]);
        }
        Camera { pos, ty: CameraType::default(), fov: 0, aspect: 0 }
    }
}

} // verus!
