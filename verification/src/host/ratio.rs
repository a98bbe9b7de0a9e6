//! Exact ratios of integer measurements. Floating-point renderings of them
//! (shares, speech ratio, pace) are made where they are printed.
use vstd::prelude::*;

verus! {

/// An exact ratio `num / den`.
#[derive(Clone, Copy, Debug, PartialEq, Eq)]
pub struct Ratio {
    pub num: u64,
    pub den: u64,
}

} // verus!
