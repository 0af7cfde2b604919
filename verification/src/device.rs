//! Identity and metadata of one paired device.

use crate::platform::{OSView, OS};
use vstd::prelude::*;

verus! {

/// A paired device. The identifier is externally supplied, unique across
/// the registry, and never changes once the device is created; the display
/// name and the last remote address may be patched later.
#[derive(Debug)]
pub struct Device {
    pub device_id: String,
    pub display_name: String,
    pub is_global: bool,
    pub is_read_only: bool,
    pub platform: OS,
    pub created_at: u64,
    pub last_sync_at: u64,
    pub last_remote_address: String,
}

/// The specification-level image of [`Device`].
pub struct DeviceView {
    pub device_id: Seq<char>,
    pub display_name: Seq<char>,
    pub is_global: bool,
    pub is_read_only: bool,
    pub platform: OSView,
    pub created_at: u64,
    pub last_sync_at: u64,
    pub last_remote_address: Seq<char>,
}

impl View for Device {
    type V = DeviceView;

    open spec fn view(&self) -> DeviceView {
        DeviceView {
            device_id: self.device_id@,
            display_name: self.display_name@,
            is_global: self.is_global,
            is_read_only: self.is_read_only,
            platform: self.platform@,
            created_at: self.created_at,
            last_sync_at: self.last_sync_at,
            last_remote_address: self.last_remote_address@,
        }
    }
}

impl Device {
    /// Creates a device record at pairing time; its creation and last-sync
    /// timestamps both start at `now`.
    pub fn new(
        device_id: String,
        display_name: String,
        is_global: bool,
        is_read_only: bool,
        platform: OS,
        remote_address: String,
        now: u64,
    ) -> (device: Device)
        ensures
            device@ == (DeviceView {
                device_id: device_id@,
                display_name: display_name@,
                is_global,
                is_read_only,
                platform: platform@,
                created_at: now,
                last_sync_at: now,
                last_remote_address: remote_address@,
            }),
    {
        Device {
            device_id,
            display_name,
            is_global,
            is_read_only,
            platform,
            created_at: now,
            last_sync_at: now,
            last_remote_address: remote_address,
        }
    }

    /// An owned copy with the same value.
    pub fn duplicate(&self) -> (device: Device)
        ensures
            device@ == self@,
    {
        Device {
            device_id: self.device_id.clone(),
            display_name: self.display_name.clone(),
            is_global: self.is_global,
            is_read_only: self.is_read_only,
            platform: self.platform.duplicate(),
            created_at: self.created_at,
            last_sync_at: self.last_sync_at,
            last_remote_address: self.last_remote_address.clone(),
        }
    }
}

} // verus!
