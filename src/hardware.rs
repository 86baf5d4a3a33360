use vstd::prelude::*;

verus! {

/// The identity that an attached device reports to `HWQ`.
#[derive(Copy, Clone, Debug, PartialEq, Eq, Structural)]
pub struct DeviceInfo {
    pub id: u32,
    pub version: u16,
    pub manufacturer: u32,
}

impl DeviceInfo {
    pub fn new(id: u32, version: u16, manufacturer: u32) -> (r: DeviceInfo)
        ensures
            r == (DeviceInfo { id, version, manufacturer }),
    {
        DeviceInfo { id, version, manufacturer }
    }
}

} // verus!
