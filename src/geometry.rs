use vstd::prelude::*;

verus! {

/// Width and height of a component, as stored in the frame header.
#[derive(Clone, Copy, Debug, PartialEq, Eq, Structural)]
pub struct Extent {
    pub width: u16,
    pub height: u16,
}

/// Width and height of a decoded sample plane.
#[derive(Clone, Copy, Debug, PartialEq, Eq, Structural)]
pub struct Size {
    pub width: usize,
    pub height: usize,
}

/// The geometry of one color component of a frame.
#[derive(Clone, Copy, Debug, PartialEq, Eq, Structural)]
pub struct Component {
    pub horizontal_sampling_factor: u8,
    pub vertical_sampling_factor: u8,
    /// Size of the component's sample plane, in samples.
    pub size: Extent,
    /// Size of the component's plane in 8x8 blocks; a stored row holds
    /// `block_size.width * 8` bytes.
    pub block_size: Extent,
}

impl Component {
    pub open spec fn factors_positive(self) -> bool {
        self.horizontal_sampling_factor > 0 && self.vertical_sampling_factor > 0
    }
}

} // verus!
