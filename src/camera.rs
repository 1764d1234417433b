//! Identity of a pan-tilt-zoom camera.
use vstd::prelude::*;

verus! {

/// What a camera reports about itself.
#[derive(Debug, Clone, PartialEq)]
pub struct CameraInfo {
    pub model: String,
    pub firmware_version: String,
    pub serial_number: String,
}

} // verus!
