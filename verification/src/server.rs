//! What the HTTP service is asked.

use vstd::prelude::*;

verus! {

/// The body of a request to capture from another device.
#[derive(Debug)]
pub struct ChangeDeviceRequest {
    _device_id: String,
}

impl ChangeDeviceRequest {
    /// The device asked for.
    pub closed spec fn device(&self) -> Seq<char> {
        self._device_id@
    }

    /// A request for the device `device_id`.
    pub fn new(device_id: String) -> (r: Self)
        ensures
            r.device() == device_id@,
    {
        ChangeDeviceRequest { _device_id: device_id }
    }

    /// The device asked for.
    pub fn device_id(&self) -> (r: &str)
        ensures
            r@ == self.device(),
    {
        self._device_id.as_str()
    }
}

} // verus!
