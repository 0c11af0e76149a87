//! Classification of controller device types.  The low byte of the packed
//! type code is the protocol class, the remaining bits the class-specific
//! sub-type.  Only load devices are polled for intensity.

use vstd::prelude::*;

verus! {

/// A packed device type code as reported by the controller.
pub struct HelvarDeviceType(pub u32);

impl From<u32> for HelvarDeviceType {
    fn from(t: u32) -> (r: HelvarDeviceType) {
        HelvarDeviceType(t)
    }
}

impl vstd::std_specs::convert::FromSpecImpl<u32> for HelvarDeviceType {
    open spec fn obeys_from_spec() -> bool {
        true
    }

    open spec fn from_spec(t: u32) -> HelvarDeviceType {
        HelvarDeviceType(t)
    }
}

/// Whether a packed type code names a controllable load: a DALI device
/// (class 1) with sub-type at most 8, or a DMX device (class 8) with
/// sub-type 2.
pub open spec fn spec_is_load(t: u32) -> bool {
    if t % 256 == 1 {
        t / 256 <= 8
    } else if t % 256 == 8 {
        t / 256 == 2
    } else {
        false
    }
}

impl HelvarDeviceType {
    /// Whether this device is a controllable load (vs. a sensor or input
    /// device).
    pub fn is_load(&self) -> (r: bool)
        ensures
            r == spec_is_load(self.0),
    {
        let cls = self.0 % 256;
        if cls == 1 {
            let dali_type = self.0 / 256;
            dali_type <= 8
        } else if cls == 8 {
            let dmx_type = self.0 / 256;
            dmx_type == 2
        } else {
            false
        }
    }
}

} // verus!
