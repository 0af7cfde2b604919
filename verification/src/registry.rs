//! The device registry: identity and metadata of every paired device.

use crate::device::{Device, DeviceView};
use crate::errors::ApiError;
use crate::platform::OS;
use vstd::hash_map::StringHashMap;
use vstd::prelude::*;

verus! {

/// The effect of a partial update: the fields supplied by the request are
/// applied, the fields omitted are left untouched, and nothing else of the
/// device ever changes.
pub open spec fn spec_patched(
    device: DeviceView,
    display_name: Option<Seq<char>>,
    last_remote_address: Option<Seq<char>>,
) -> DeviceView {
    DeviceView {
        display_name: (match display_name {
            Some(name) => name,
            None => device.display_name,
        }),
        last_remote_address: (match last_remote_address {
            Some(address) => address,
            None => device.last_remote_address,
        }),
        ..device
    }
}

/// The device table, keyed by the externally supplied device identifier.
pub struct DeviceRegistry {
    m: StringHashMap<Device>,
}

impl View for DeviceRegistry {
    type V = Map<Seq<char>, DeviceView>;

    closed spec fn view(&self) -> Map<Seq<char>, DeviceView> {
        self.m@.map_values(|device: Device| device@)
    }
}

impl DeviceRegistry {
    /// Each device sits under its own identifier.
    pub open spec fn wf(self) -> bool {
        forall|id: Seq<char>| #[trigger]
            self@.contains_key(id) ==> self@[id].device_id == id
    }

    /// An empty registry.
    pub fn new() -> (registry: DeviceRegistry)
        ensures
            registry@ == Map::<Seq<char>, DeviceView>::empty(),
            registry.wf(),
    {
        let registry = DeviceRegistry { m: StringHashMap::new() };
        proof {
            assert(registry@ =~= Map::<Seq<char>, DeviceView>::empty());
        }
        registry
    }

    /// Creates a device once: refused with `ConflictError` if the identifier
    /// is already present, and then nothing changes. On success the new
    /// record carries `created_at == last_sync_at == now` and is returned.
    pub fn register(
        &mut self,
        device_id: &String,
        display_name: String,
        is_global: bool,
        is_read_only: bool,
        platform: OS,
        remote_address: String,
        now: u64,
    ) -> (result: Result<Device, ApiError>)
        requires
            old(self).wf(),
        ensures
            final(self).wf(),
            (match result {
                Ok(device) => !old(self)@.contains_key(device_id@) && device@ == (DeviceView {
                    device_id: device_id@,
                    display_name: display_name@,
                    is_global,
                    is_read_only,
                    platform: platform@,
                    created_at: now,
                    last_sync_at: now,
                    last_remote_address: remote_address@,
                }) && final(self)@ == old(self)@.insert(device_id@, device@),
                Err(e) => e == ApiError::ConflictError && old(self)@.contains_key(device_id@)
                    && final(self)@ == old(self)@,
            }),
    {
        if self.m.contains_key(device_id.as_str()) {
            return Err(ApiError::ConflictError);
        }
        let device = Device::new(
            device_id.clone(),
            display_name,
            is_global,
            is_read_only,
            platform,
            remote_address,
            now,
        );
        let copy = device.duplicate();
        self.m.insert(device_id.clone(), device);
        proof {
            assert(self@ =~= old(self)@.insert(device_id@, copy@));
        }
        Ok(copy)
    }

    /// Finds the device paired under `device_id`, or reports
    /// `NotFoundError`.
    pub fn lookup(&self, device_id: &String) -> (result: Result<&Device, ApiError>)
        ensures
            (match result {
                Ok(device) => self@.contains_key(device_id@) && device@ == self@[device_id@],
                Err(e) => e == ApiError::NotFoundError && !self@.contains_key(device_id@),
            }),
    {
        match self.m.get(device_id.as_str()) {
            Some(device) => Ok(device),
            None => Err(ApiError::NotFoundError),
        }
    }

    /// Applies a partial update: only the fields supplied are replaced;
    /// omitted fields keep their value. Reports `NotFoundError`, changing
    /// nothing, if the device is absent.
    pub fn patch(
        &mut self,
        device_id: &String,
        display_name: Option<&String>,
        last_remote_address: Option<&String>,
    ) -> (result: Result<Device, ApiError>)
        requires
            old(self).wf(),
        ensures
            final(self).wf(),
            (match result {
                Ok(device) => old(self)@.contains_key(device_id@) && device@ == spec_patched(
                    old(self)@[device_id@],
                    (match display_name {
                        Some(name) => Some(name@),
                        None => None,
                    }),
                    (match last_remote_address {
                        Some(address) => Some(address@),
                        None => None,
                    }),
                ) && final(self)@ == old(self)@.insert(device_id@, device@),
                Err(e) => e == ApiError::NotFoundError && !old(self)@.contains_key(device_id@)
                    && final(self)@ == old(self)@,
            }),
    {
        let current = match self.m.get(device_id.as_str()) {
            Some(device) => device,
            None => {
                return Err(ApiError::NotFoundError);
            },
        };
        let mut updated = current.duplicate();
        match display_name {
            Some(name) => {
                updated.display_name = name.clone();
            },
            None => {},
        }
        match last_remote_address {
            Some(address) => {
                updated.last_remote_address = address.clone();
            },
            None => {},
        }
        let copy = updated.duplicate();
        proof {
            assert(old(self)@.contains_key(device_id@));
            assert(copy@.device_id == device_id@);
        }
        self.m.insert(device_id.clone(), updated);
        proof {
            assert(self@ =~= old(self)@.insert(device_id@, copy@));
        }
        Ok(copy)
    }

    /// The number of devices paired.
    pub fn len(&self) -> (n: usize)
        ensures
            n == self@.len(),
    {
        proof {
            assert(self@.dom() =~= self.m@.dom());
        }
        self.m.len()
    }
}

} // verus!
