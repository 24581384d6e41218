//! Queue family selection data for the rendering device.

use vstd::prelude::*;

verus! {

/// The queue family index chosen for each queue role.
#[derive(Clone, Copy, Debug)]
pub struct QueueFamiliesIndices {
    pub transfer: u32,
    pub compute: u32,
    pub graphics: u32,
    pub present: u32,
}

impl QueueFamiliesIndices {
    /// The four role indices in fixed order: transfer, compute, graphics,
    /// present.
    pub fn as_array(&self) -> (r: [u32; 4])
        ensures
            r@ == seq![self.transfer, self.compute, self.graphics, self.present],
    {
        let r = [self.transfer, self.compute, self.graphics, self.present];
        proof {
            assert(r@ =~= seq![self.transfer, self.compute, self.graphics, self.present]);
        }
        r
    }
}

} // verus!
