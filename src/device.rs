//! Devices: client-identified endpoints, each the scope of one session.
use vstd::prelude::*;

use crate::error::Error;
use crate::lookup::{first_at, first_match, lemma_first_match, lemma_no_match};
use crate::session::{copy_text, text_of};
use crate::user::{guest_id_is, user_where, User, UserStore};

verus! {

/// A device record, keyed by the id its client supplies.
#[derive(Debug)]
pub struct Device {
    pub id: String,
    pub name: Option<String>,
    pub platform: Option<String>,
    /// The identity that owns the device.
    pub user_id: Option<String>,
    /// The guest identity bound to the device.
    pub guest_id: Option<String>,
    /// Push-notification token.
    pub expo_token: Option<String>,
}

/// What a client sends about its device.
#[derive(Debug)]
pub struct NewDevice {
    pub id: String,
    pub name: Option<String>,
    pub platform: Option<String>,
    pub user_id: Option<String>,
    pub guest_id: Option<String>,
    pub expo_token: Option<String>,
}

/// Changes to a device; absent fields stay as they are.
#[derive(Debug)]
pub struct DevicePatch {
    pub name: Option<String>,
    pub platform: Option<String>,
    pub user_id: Option<String>,
    pub guest_id: Option<String>,
    pub expo_token: Option<String>,
}

/// The mathematical value of a [`Device`].
pub struct DeviceView {
    pub id: Seq<char>,
    pub name: Option<Seq<char>>,
    pub platform: Option<Seq<char>>,
    pub user_id: Option<Seq<char>>,
    pub guest_id: Option<Seq<char>>,
    pub expo_token: Option<Seq<char>>,
}

impl View for Device {
    type V = DeviceView;

    open spec fn view(&self) -> DeviceView {
        DeviceView {
            id: self.id@,
            name: text_of(self.name),
            platform: text_of(self.platform),
            user_id: text_of(self.user_id),
            guest_id: text_of(self.guest_id),
            expo_token: text_of(self.expo_token),
        }
    }
}

/// The stored value after a patch field: the patch's when it carries one.
pub open spec fn merge_text(new: Option<String>, old: Option<Seq<char>>) -> Option<Seq<char>> {
    match new {
        Some(v) => Some(v@),
        None => old,
    }
}

/// A device after `p`: each field the patch carries replaces the stored one.
pub open spec fn merged(d: DeviceView, p: DevicePatch) -> DeviceView {
    DeviceView {
        id: d.id,
        name: merge_text(p.name, d.name),
        platform: merge_text(p.platform, d.platform),
        user_id: merge_text(p.user_id, d.user_id),
        guest_id: merge_text(p.guest_id, d.guest_id),
        expo_token: merge_text(p.expo_token, d.expo_token),
    }
}

/// The patch that a device's own report makes.
pub open spec fn patch_of(d: NewDevice) -> DevicePatch {
    DevicePatch {
        name: d.name,
        platform: d.platform,
        user_id: d.user_id,
        guest_id: d.guest_id,
        expo_token: d.expo_token,
    }
}

/// The record that a first report of a device creates.
pub open spec fn created(d: NewDevice) -> DeviceView {
    DeviceView {
        id: d.id@,
        name: text_of(d.name),
        platform: text_of(d.platform),
        user_id: text_of(d.user_id),
        guest_id: text_of(d.guest_id),
        expo_token: text_of(d.expo_token),
    }
}

impl DevicePatch {
    /// The patch that a device's own report makes.
    pub fn from(device: &NewDevice) -> (p: DevicePatch)
        ensures
            p == patch_of(*device),
    {
        DevicePatch {
            name: copy_text(&device.name),
            platform: copy_text(&device.platform),
            user_id: copy_text(&device.user_id),
            guest_id: copy_text(&device.guest_id),
            expo_token: copy_text(&device.expo_token),
        }
    }
}

impl Device {
    /// A copy of the record.
    pub fn duplicate(&self) -> (d: Device)
        ensures
            d@ == self@,
    {
        Device {
            id: self.id.clone(),
            name: copy_text(&self.name),
            platform: copy_text(&self.platform),
            user_id: copy_text(&self.user_id),
            guest_id: copy_text(&self.guest_id),
            expo_token: copy_text(&self.expo_token),
        }
    }

    /// The guest account bound to this device, if it still exists.
    pub fn get_guest(&self, users: &UserStore) -> (r: Option<User>)
        ensures
            match self@.guest_id {
                Some(g) => match r {
                    Some(u) => user_where(users@, guest_id_is(g)) == Some(u@),
                    None => user_where(users@, guest_id_is(g)) is None,
                },
                None => r is None,
            },
    {
        match &self.guest_id {
            Some(g) => users.find_guest(g.as_str()),
            None => None,
        }
    }
}

/// Keeps the devices that the identity `user_id` does not own.
pub open spec fn not_owned_by(user_id: Seq<char>) -> spec_fn(DeviceView) -> bool {
    |d: DeviceView| d.user_id != Some(user_id)
}

/// Matches the device with id `id`.
pub open spec fn device_id_is(id: Seq<char>) -> spec_fn(DeviceView) -> bool {
    |d: DeviceView| d.id == id
}

/// The device with id `id`.
pub open spec fn device_where(devices: Seq<DeviceView>, id: Seq<char>) -> Option<DeviceView> {
    match first_match(devices, device_id_is(id)) {
        Some(i) => Some(devices[i]),
        None => None,
    }
}

/// The devices after writing `d` in place of the device with its id, or after it.
pub open spec fn put(devices: Seq<DeviceView>, d: DeviceView) -> Seq<DeviceView> {
    match first_match(devices, device_id_is(d.id)) {
        Some(i) => devices.update(i, d),
        None => devices.push(d),
    }
}

/// After `put`, the device of that id is the one written.
pub proof fn lemma_put_where(devices: Seq<DeviceView>, d: DeviceView)
    ensures
        device_where(put(devices, d), d.id) == Some(d),
{
    let after = put(devices, d);
    match first_match(devices, device_id_is(d.id)) {
        Some(i) => {
            assert(first_at(devices, device_id_is(d.id), i));
            assert(first_at(after, device_id_is(d.id), i));
            lemma_first_match(after, device_id_is(d.id), i);
        },
        None => {
            assert forall|j: int| 0 <= j < devices.len() implies !(device_id_is(d.id))(#[trigger] devices[j]) by {
                if (device_id_is(d.id))(devices[j]) {
                    crate::lookup::lemma_some_match(devices, device_id_is(d.id), j);
                }
            }
            assert(first_at(after, device_id_is(d.id), devices.len() as int));
            lemma_first_match(after, device_id_is(d.id), devices.len() as int);
        },
    }
}

/// The device found under an id has that id.
pub proof fn lemma_device_where_id(devices: Seq<DeviceView>, id: Seq<char>)
    ensures
        device_where(devices, id) matches Some(d) ==> d.id == id,
{
    if let Some(i) = first_match(devices, device_id_is(id)) {
        assert(first_at(devices, device_id_is(id), i));
    }
}

/// The devices, one record per id.
pub struct DeviceStore {
    devices: Vec<Device>,
}

impl View for DeviceStore {
    type V = Seq<DeviceView>;

    closed spec fn view(&self) -> Seq<DeviceView> {
        self.devices@.map_values(|d: Device| d@)
    }
}

impl DeviceStore {
    /// An empty store.
    pub fn new() -> (s: DeviceStore)
        ensures
            s@ == Seq::<DeviceView>::empty(),
    {
        let s = DeviceStore { devices: Vec::new() };
        assert(s@ =~= Seq::<DeviceView>::empty());
        s
    }

    fn position(&self, id: &str) -> (r: Option<usize>)
        ensures
            match r {
                Some(i) => first_match(self@, device_id_is(id@)) == Some(i as int),
                None => first_match(self@, device_id_is(id@)) is None,
            },
    {
        let key = id.to_owned();
        let n = self.devices.len();
        let mut i: usize = 0;
        while i < n
            invariant
                n == self@.len(),
                key@ == id@,
                0 <= i <= n,
                forall|j: int| 0 <= j < i ==> !(device_id_is(id@))(#[trigger] self@[j]),
            decreases n - i,
        {
            assert(self@[i as int] == self.devices@[i as int]@);
            if self.devices[i].id == key {
                proof {
                    lemma_first_match(self@, device_id_is(id@), i as int);
                }
                return Some(i);
            }
            i = i + 1;
        }
        proof {
            lemma_no_match(self@, device_id_is(id@));
        }
        None
    }

    /// The device with id `id`.
    pub fn find(&self, id: &str) -> (r: Option<Device>)
        ensures
            match r {
                Some(d) => device_where(self@, id@) == Some(d@),
                None => device_where(self@, id@) is None,
            },
    {
        match self.position(id) {
            Some(i) => {
                assert(self@[i as int] == self.devices@[i as int]@);
                Some(self.devices[i].duplicate())
            },
            None => None,
        }
    }

    /// Removes every device that the identity `user_id` owns.
    pub fn remove_owned(&mut self, user_id: &str)
        ensures
            final(self)@ == old(self)@.filter(not_owned_by(user_id@)),
    {
        let key = user_id.to_owned();
        let ghost p = not_owned_by(user_id@);
        let mut kept: Vec<Device> = Vec::new();
        let n = self.devices.len();
        let mut i: usize = 0;
        while i < n
            invariant
                n == self@.len(),
                self@ == old(self)@,
                key@ == user_id@,
                p == not_owned_by(user_id@),
                0 <= i <= n,
                kept@.map_values(|d: Device| d@) == self@.subrange(0, i as int).filter(p),
            decreases n - i,
        {
            proof {
                crate::lookup::lemma_filter_step(self@, p, i as int);
            }
            assert(self@[i as int] == self.devices@[i as int]@);
            let owned = match &self.devices[i].user_id {
                Some(u) => *u == key,
                None => false,
            };
            if !owned {
                let d = self.devices[i].duplicate();
                let ghost before = kept@.map_values(|d: Device| d@);
                kept.push(d);
                assert(kept@.map_values(|d: Device| d@) =~= before.push(self@[i as int]));
            }
            i = i + 1;
        }
        assert(self@.subrange(0, n as int) =~= self@);
        self.devices = kept;
    }

    /// Writes `d` in place of the device with its id, or adds it.
    pub fn put(&mut self, d: Device) -> (r: Device)
        ensures
            r@ == d@,
            final(self)@ == put(old(self)@, d@),
    {
        let copy = d.duplicate();
        let ghost before = self@;
        match self.position(d.id.as_str()) {
            Some(i) => {
                self.devices.set(i, d);
                assert(self@ =~= before.update(i as int, copy@));
            },
            None => {
                self.devices.push(d);
                assert(self@ =~= before.push(copy@));
            },
        }
        copy
    }
}

/// Reads and writes devices.
pub struct DeviceController;

impl DeviceController {
    /// The device with id `id`.
    pub fn get(store: &DeviceStore, id: &str) -> (r: Option<Device>)
        ensures
            match r {
                Some(d) => device_where(store@, id@) == Some(d@),
                None => device_where(store@, id@) is None,
            },
    {
        store.find(id)
    }

    /// Creates the device a client reports, or merges the report into the
    /// stored record of that id; a device is never duplicated.
    pub fn create_or_update(store: &mut DeviceStore, new_device: &NewDevice) -> (r: Result<Device, Error>)
        ensures
            r matches Ok(d) && d@ == match device_where(old(store)@, new_device.id@) {
                Some(old_device) => merged(old_device, patch_of(*new_device)),
                None => created(*new_device),
            } && final(store)@ == put(old(store)@, d@) && d@.id == new_device.id@ && device_where(
                final(store)@,
                new_device.id@,
            ) == Some(d@),
    {
        proof {
            lemma_device_where_id(old(store)@, new_device.id@);
        }
        let record = match store.find(new_device.id.as_str()) {
            None => Device {
                id: new_device.id.clone(),
                name: copy_text(&new_device.name),
                platform: copy_text(&new_device.platform),
                user_id: copy_text(&new_device.user_id),
                guest_id: copy_text(&new_device.guest_id),
                expo_token: copy_text(&new_device.expo_token),
            },
            Some(dev) => apply(dev, DevicePatch::from(new_device)),
        };
        let written = store.put(record);
        proof {
            lemma_put_where(old(store)@, written@);
        }
        Ok(written)
    }

    /// Applies `device_patch` to the device with id `id`; no such device is a
    /// store failure.
    pub fn update(store: &mut DeviceStore, id: &str, device_patch: DevicePatch) -> (r: Result<Device, Error>)
        ensures
            match r {
                Ok(d) => exists|old_device: DeviceView|
                    device_where(old(store)@, id@) == Some(old_device) && d@ == merged(old_device, device_patch)
                        && final(store)@ == put(old(store)@, d@) && device_where(final(store)@, id@) == Some(
                        d@,
                    ),
                Err(e) => device_where(old(store)@, id@) is None && final(store)@ == old(store)@
                    && e is StoreData,
            },
    {
        match store.find(id) {
            Some(dev) => {
                proof {
                    lemma_device_where_id(old(store)@, id@);
                }
                let written = store.put(apply(dev, device_patch));
                proof {
                    lemma_put_where(old(store)@, written@);
                }
                Ok(written)
            },
            None => Err(Error::StoreData(String::from_str("device"))),
        }
    }
}

fn apply(d: Device, p: DevicePatch) -> (r: Device)
    ensures
        r@ == merged(d@, p),
{
    Device {
        id: d.id,
        name: match p.name {
            Some(v) => Some(v),
            None => d.name,
        },
        platform: match p.platform {
            Some(v) => Some(v),
            None => d.platform,
        },
        user_id: match p.user_id {
            Some(v) => Some(v),
            None => d.user_id,
        },
        guest_id: match p.guest_id {
            Some(v) => Some(v),
            None => d.guest_id,
        },
        expo_token: match p.expo_token {
            Some(v) => Some(v),
            None => d.expo_token,
        },
    }
}

} // verus!
