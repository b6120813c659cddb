use vstd::prelude::*;

use crate::device_id::DeviceID;
use crate::interfaces::Button;

verus! {

/// Static description of one tablet model.
///
/// `width` and `height` are the largest raw coordinates the model reports;
/// decoded positions are divided by them.
#[derive(Clone, Debug)]
pub struct DeviceInfo {
    pub id: DeviceID,
    pub height: u32,
    pub width: u32,
    pub button_available: Vec<Button>,
    pub wheel: bool,
    pub packet_length: usize,
}

/// The descriptor database, in the order it was loaded.
pub type DeviceDB = Vec<DeviceInfo>;

} // verus!
