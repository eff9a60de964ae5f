//! Plain value types of the sound driver.

use vstd::prelude::*;

verus! {

/// How the volume of a positioned sound falls off with distance.
#[derive(Clone, Copy, Debug)]
pub enum AttenuationType {
    /// The volume does not depend on distance.
    Off,
    InverseDistance,
    Linear,
    ExponentialDistance,
}

} // verus!
