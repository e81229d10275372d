//! The compute backend: how an image is tiled into workgroups, and the
//! renderer of a build that carries no compute backend.

use vstd::prelude::*;
use crate::imgcomparator::Image;
use crate::scene::SceneFile;

verus! {

/// The side of a square workgroup, in pixels.
pub const WORKGROUP_SIDE: u32 = 8;

/// The number of workgroups that cover `n` pixels along one axis.
pub open spec fn groups_for(n: u32) -> int {
    (n as int + 7) / 8
}

/// The number of workgroups along one axis that cover `n` pixels: `n / 8`
/// rounded up.
pub fn workgroup_count(n: u32) -> (r: u32)
    ensures
        r == groups_for(n),
{
    n / WORKGROUP_SIDE + if n % WORKGROUP_SIDE == 0 {
        0
    } else {
        1
    }
}

/// The workgroup grid for an image of `width` by `height` pixels: enough
/// 8-by-8 groups along each axis to cover it, in one layer.
pub fn dispatch_size(width: u32, height: u32) -> (r: (u32, u32, u32))
    ensures
        r == (groups_for(width) as u32, groups_for(height) as u32, 1u32),
{
    (workgroup_count(width), workgroup_count(height), 1)
}

/// The grid of `dispatch_size` covers every pixel, and overshoots the image
/// by less than one workgroup along each axis.
pub proof fn lemma_dispatch_covers_image(width: u32, height: u32, x: u32, y: u32)
    requires
        x < width,
        y < height,
    ensures
        x / 8 < groups_for(width),
        y / 8 < groups_for(height),
        groups_for(width) * 8 < width + 8,
        groups_for(height) * 8 < height + 8,
{
}

/// A renderer on a compute device. This build carries no compute backend,
/// so none can be made and every render is refused.
#[derive(Debug)]
pub struct GPURenderer;

impl GPURenderer {
    /// Refuses: no compute backend is available in this build.
    pub fn new() -> (r: Result<GPURenderer, String>)
        ensures
            r matches Err(e) && e@ == "GPU support not compiled into this build"@,
    {
        Err("GPU support not compiled into this build".to_owned())
    }

    /// Refuses: no compute backend is available in this build.
    pub fn render(&self, config: &SceneFile) -> (r: Result<Image, String>)
        ensures
            r matches Err(e) && e@ == "GPU support not compiled"@,
    {
        Err("GPU support not compiled".to_owned())
    }
}

} // verus!
