//! What the controller is configured with.

use crate::iot_client::IoTClientConfig;
use crate::zone::ZoneConfig;
use vstd::prelude::*;

verus! {

/// The session with the broker and the zones to keep in step.
#[derive(Debug)]
pub struct Settings {
    pub iot_client: IoTClientConfig,
    pub zones: Vec<ZoneConfig>,
}

impl Settings {
    /// The settings made of a session and a list of zones.
    pub fn new(iot_client: IoTClientConfig, zones: Vec<ZoneConfig>) -> (settings: Settings)
        ensures
            settings.iot_client == iot_client,
            settings.zones == zones,
    {
        Settings { iot_client, zones }
    }
}

} // verus!
