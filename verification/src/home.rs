//! Rooms and the home that owns them.
//!
//! A [`Home`] owns rooms keyed by name; a [`Room`] owns devices keyed by
//! name. Both collections keep their keys unique: inserting under an existing
//! name replaces the old entry. The models [`RoomModel`] and [`HomeModel`]
//! state every operation's effect exactly, and every failed operation leaves
//! the registry unchanged.

use crate::devices::{Device, DeviceError, DeviceModel, SmartDevice};
use vstd::prelude::*;
use vstd::string::StringExecFns;

verus! {

/// Why a registry operation failed. The lookup errors name the offending
/// room or device.
#[derive(Clone, Debug, PartialEq, Eq)]
pub enum HomeError {
    /// No room of the given name is in the home.
    NoRoomInHome { room: String },
    /// No device of the given name is in the given room.
    NoDeviceInRoom { room: String, device: String },
    /// Reserved for construction-time validation of rooms.
    CantAddRoom,
    /// Reserved for construction-time validation of devices.
    CantAddDevice,
}

/// The text of a registry error, offending name included.
pub open spec fn home_error_text(e: HomeError) -> Seq<char> {
    match e {
        HomeError::NoRoomInHome { room } => "No room in home: '"@ + room@ + "'"@,
        HomeError::NoDeviceInRoom { room, device } => "No device in room: there is no '"@ + device@
            + "' in room '"@ + room@ + "'"@,
        HomeError::CantAddRoom => "Can't add room"@,
        HomeError::CantAddDevice => "Can't add device"@,
    }
}

impl HomeError {
    /// A human-readable description of the error, offending name included.
    pub fn message(&self) -> (r: String)
        ensures
            r@ == home_error_text(*self),
    {
        match self {
            HomeError::NoRoomInHome { room } => {
                let mut s = String::from_str("No room in home: '");
                s.append(room.as_str());
                s.append("'");
                proof {
                    assert(s@ =~= home_error_text(*self));
                }
                s
            },
            HomeError::NoDeviceInRoom { room, device } => {
                let mut s = String::from_str("No device in room: there is no '");
                s.append(device.as_str());
                s.append("' in room '");
                s.append(room.as_str());
                s.append("'");
                proof {
                    assert(s@ =~= home_error_text(*self));
                }
                s
            },
            HomeError::CantAddRoom => String::from_str("Can't add room"),
            HomeError::CantAddDevice => String::from_str("Can't add device"),
        }
    }
}

/// The mathematical model of a room: its name and its devices, in insertion
/// order.
pub ghost struct RoomModel {
    pub name: Seq<char>,
    pub devices: Seq<DeviceModel>,
}

/// Whether all names in `devs` are pairwise distinct.
pub open spec fn distinct_device_names(devs: Seq<DeviceModel>) -> bool {
    forall|i: int, j: int|
        0 <= i < j < devs.len() ==> devs[i].name() != devs[j].name()
}

/// Whether some device in `devs` is named `n`.
pub open spec fn has_device_named(devs: Seq<DeviceModel>, n: Seq<char>) -> bool {
    exists|i: int| 0 <= i < devs.len() && devs[i].name() == n
}

/// The index of the device named `n` in `devs` (meaningful only when
/// `has_device_named(devs, n)` holds; unique under distinct names).
pub open spec fn device_index(devs: Seq<DeviceModel>, n: Seq<char>) -> int {
    choose|i: int| 0 <= i < devs.len() && devs[i].name() == n
}

/// The concatenation of the printable status blocks of `devs`, in order.
pub open spec fn devices_text(devs: Seq<DeviceModel>) -> Seq<char>
    decreases devs.len(),
{
    if devs.len() == 0 {
        Seq::empty()
    } else {
        devices_text(devs.drop_last()) + devs.last().print_text()
    }
}

/// The name of the first device in `devs`, in order, whose state does not
/// render (meaningful only when such a device exists).
pub open spec fn first_failing_name(devs: Seq<DeviceModel>) -> Seq<char>
    decreases devs.len(),
{
    if devs.len() == 0 {
        Seq::empty()
    } else if !devs.first().state_ok() {
        devs.first().name()
    } else {
        first_failing_name(devs.drop_first())
    }
}

/// When the devices before index `i` all render and the one at `i` does
/// not, `first_failing_name` names exactly that device.
pub proof fn lemma_first_failing_name(devs: Seq<DeviceModel>, i: int)
    requires
        0 <= i < devs.len(),
        !devs[i].state_ok(),
        forall|j: int| 0 <= j < i ==> devs[j].state_ok(),
    ensures
        first_failing_name(devs) == devs[i].name(),
    decreases i,
{
    if i > 0 {
        assert forall|j: int| 0 <= j < i - 1 implies devs.drop_first()[j].state_ok() by {
            assert(devs.drop_first()[j] == devs[j + 1]);
        }
        assert(devs.drop_first()[i - 1] == devs[i]);
        lemma_first_failing_name(devs.drop_first(), i - 1);
    }
}

impl RoomModel {
    /// Device names are unique within the room.
    pub open spec fn wf(self) -> bool {
        distinct_device_names(self.devices)
    }

    /// Whether the room holds a device named `n`.
    pub open spec fn has_device(self, n: Seq<char>) -> bool {
        has_device_named(self.devices, n)
    }

    /// The device named `n` (meaningful only when `has_device(n)` holds).
    pub open spec fn device_at(self, n: Seq<char>) -> DeviceModel {
        self.devices[device_index(self.devices, n)]
    }

    /// The room after inserting `d`: a device with the same name is
    /// replaced in place, otherwise `d` is appended.
    pub open spec fn add_device(self, d: DeviceModel) -> RoomModel {
        if self.has_device(d.name()) {
            RoomModel {
                name: self.name,
                devices: self.devices.update(device_index(self.devices, d.name()), d),
            }
        } else {
            RoomModel { name: self.name, devices: self.devices.push(d) }
        }
    }

    /// The room after removing the device named `n` (meaningful only when
    /// `has_device(n)` holds).
    pub open spec fn remove_device(self, n: Seq<char>) -> RoomModel {
        RoomModel { name: self.name, devices: self.devices.remove(device_index(self.devices, n)) }
    }

    /// The room after switching the device named `n` in place (meaningful
    /// only when `has_device(n)` holds; a thermometer is unchanged).
    pub open spec fn switch_device(self, n: Seq<char>) -> RoomModel {
        let i = device_index(self.devices, n);
        RoomModel { name: self.name, devices: self.devices.update(i, self.devices[i].switched()) }
    }

    /// Whether every device in the room renders its state successfully.
    pub open spec fn report_ok(self) -> bool {
        forall|i: int| 0 <= i < self.devices.len() ==> self.devices[i].state_ok()
    }
}

/// With distinct names, any index whose device is named `n` is the index
/// `device_index` picks.
pub proof fn lemma_device_index_unique(devs: Seq<DeviceModel>, n: Seq<char>, i: int)
    requires
        distinct_device_names(devs),
        0 <= i < devs.len(),
        devs[i].name() == n,
    ensures
        has_device_named(devs, n),
        device_index(devs, n) == i,
{
    assert(has_device_named(devs, n));
    let k = device_index(devs, n);
    assert(0 <= k < devs.len() && devs[k].name() == n);
    if k < i {
        assert(devs[k].name() != devs[i].name());
    } else if i < k {
        assert(devs[i].name() != devs[k].name());
    }
}

/// A named space owning a keyed collection of devices.
pub struct Room {
    name: String,
    devices: Vec<Device>,
}

impl View for Room {
    type V = RoomModel;

    closed spec fn view(&self) -> RoomModel {
        RoomModel { name: self.name@, devices: self.devices@.map_values(|d: Device| d@) }
    }
}

impl Room {
    /// Device names are unique within the room. Established by [`Room::new`]
    /// and preserved by every operation.
    pub open spec fn wf(&self) -> bool {
        self@.wf()
    }

    /// Creates an empty room.
    pub fn new(name: String) -> (r: Self)
        ensures
            r@ == (RoomModel { name: name@, devices: Seq::<DeviceModel>::empty() }),
            r.wf(),
    {
        let r = Room { devices: Vec::new(), name };
        proof {
            assert(r@.devices =~= Seq::<DeviceModel>::empty());
        }
        r
    }

    /// The index of the device named `name`, if the room holds one.
    fn position_of(&self, name: &str) -> (r: Option<usize>)
        ensures
            r matches Some(i) ==> 0 <= i < self@.devices.len() && self@.devices[i as int].name()
                == name@,
            r is None ==> !self@.has_device(name@),
    {
        let wanted: String = name.to_owned();
        let mut i: usize = 0;
        while i < self.devices.len()
            invariant
                0 <= i <= self.devices.len(),
                self@.devices.len() == self.devices.len(),
                wanted@ == name@,
                forall|j: int| 0 <= j < i ==> self@.devices[j].name() != name@,
            decreases self.devices.len() - i,
        {
            let candidate: String = self.devices[i].name().to_owned();
            if candidate == wanted {
                return Some(i);
            }
            i += 1;
        }
        None
    }

    /// Non-owning lookup of the device named `name`.
    pub fn get_device(&self, name: &str) -> (r: Option<&Device>)
        requires
            self.wf(),
        ensures
            self@.has_device(name@) ==> (r matches Some(d) && d@ == self@.device_at(name@)),
            !self@.has_device(name@) ==> r is None,
    {
        match self.position_of(name) {
            Some(i) => {
                proof {
                    lemma_device_index_unique(self@.devices, name@, i as int);
                }
                Some(&self.devices[i])
            },
            None => None,
        }
    }

    /// Inserts `device` under its name; a device already stored under that
    /// name is replaced, so afterwards exactly the inserted device is
    /// present under it.
    pub fn add_device(&mut self, device: Device)
        requires
            old(self).wf(),
        ensures
            final(self)@ == old(self)@.add_device(device@),
            final(self).wf(),
    {
        let name_owned: String = device.name().to_owned();
        match self.position_of(name_owned.as_str()) {
            Some(i) => {
                proof {
                    lemma_device_index_unique(old(self)@.devices, device@.name(), i as int);
                }
                self.devices[i] = device;
                proof {
                    assert(self@.devices =~= old(self)@.devices.update(i as int, device@));
                    assert(self@ == old(self)@.add_device(device@));
                    assert forall|p: int, q: int|
                        0 <= p < q < self@.devices.len() implies self@.devices[p].name()
                        != self@.devices[q].name() by {
                        assert(old(self)@.devices[p].name() != old(self)@.devices[q].name());
                    }
                }
            },
            None => {
                self.devices.push(device);
                proof {
                    assert(self@.devices =~= old(self)@.devices.push(device@));
                    assert(self@ == old(self)@.add_device(device@));
                    assert forall|p: int, q: int|
                        0 <= p < q < self@.devices.len() implies self@.devices[p].name()
                        != self@.devices[q].name() by {
                        if q < old(self)@.devices.len() {
                            assert(old(self)@.devices[p].name() != old(self)@.devices[q].name());
                        } else {
                            assert(!old(self)@.has_device(device@.name()));
                        }
                    }
                }
            },
        }
    }

    /// Removes the device named `name` and returns its ownership, or fails
    /// with `NoDeviceInRoom` naming the room and the missing device, leaving
    /// the room unchanged.
    pub fn remove_device(&mut self, name: &str) -> (r: Result<Device, HomeError>)
        requires
            old(self).wf(),
        ensures
            old(self)@.has_device(name@) ==> (r matches Ok(d) && d@ == old(self)@.device_at(name@)
                && final(self)@ == old(self)@.remove_device(name@)),
            !old(self)@.has_device(name@) ==> (r matches Err(e) && e matches
                HomeError::NoDeviceInRoom { room, device } && room@ == old(self)@.name && device@
                == name@ && final(self)@ == old(self)@),
            final(self).wf(),
    {
        match self.position_of(name) {
            Some(i) => {
                proof {
                    lemma_device_index_unique(old(self)@.devices, name@, i as int);
                }
                let d = self.devices.remove(i);
                proof {
                    assert(self@.devices =~= old(self)@.devices.remove(i as int));
                    assert(self@ == old(self)@.remove_device(name@));
                    assert forall|p: int, q: int|
                        0 <= p < q < self@.devices.len() implies self@.devices[p].name()
                        != self@.devices[q].name() by {
                        let p0 = if p < i { p } else { p + 1 };
                        let q0 = if q < i { q } else { q + 1 };
                        assert(old(self)@.devices[p0].name() != old(self)@.devices[q0].name());
                    }
                }
                Ok(d)
            },
            None => Err(
                HomeError::NoDeviceInRoom { room: self.name.clone(), device: name.to_owned() },
            ),
        }
    }

    /// Concatenates the printable status blocks of all devices, in insertion
    /// order; the first device that cannot render (an off socket) aborts the
    /// whole report with `DeviceIsTurnedOff` naming that device.
    pub fn devices_state(&self) -> (r: Result<String, DeviceError>)
        ensures
            self@.report_ok() ==> (r matches Ok(s) && s@ == devices_text(self@.devices)),
            !self@.report_ok() ==> (r matches Err(e) && e matches
                DeviceError::DeviceIsTurnedOff { device } && device@ == first_failing_name(
                self@.devices,
            )),
    {
        let mut report = String::new();
        let mut i: usize = 0;
        while i < self.devices.len()
            invariant
                0 <= i <= self.devices.len(),
                self@.devices.len() == self.devices.len(),
                forall|j: int| 0 <= j < i ==> self@.devices[j].state_ok(),
                report@ == devices_text(self@.devices.take(i as int)),
            decreases self.devices.len() - i,
        {
            match self.devices[i].print_state() {
                Ok(t) => {
                    report.append(t.as_str());
                    proof {
                        assert(self@.devices.take(i + 1 as int).drop_last() =~= self@.devices.take(
                            i as int,
                        ));
                        assert(report@ == devices_text(self@.devices.take(i + 1 as int)));
                    }
                },
                Err(e) => {
                    proof {
                        lemma_first_failing_name(self@.devices, i as int);
                    }
                    return Err(e);
                },
            }
            i += 1;
        }
        proof {
            assert(self@.devices.take(self.devices.len() as int) =~= self@.devices);
        }
        Ok(report)
    }

    /// Switches the device named `name` in place, without removing it. The
    /// outer error reports a failed lookup; the inner result is the device's
    /// own switch outcome: the prior-state label for a socket, and
    /// `SwitchOnOffError` for a thermometer (which is left unchanged).
    pub fn switch_device(&mut self, name: &str) -> (r: Result<
        Result<String, DeviceError>,
        HomeError,
    >)
        requires
            old(self).wf(),
        ensures
            !old(self)@.has_device(name@) ==> (r matches Err(e) && e matches
                HomeError::NoDeviceInRoom { room, device } && room@ == old(self)@.name && device@
                == name@ && final(self)@ == old(self)@),
            old(self)@.has_device(name@) ==> ({
                let d = old(self)@.device_at(name@);
                &&& final(self)@ == old(self)@.switch_device(name@)
                &&& d.switchable() ==> (r matches Ok(inner) && inner matches Ok(s) && s@
                    == d.switch_label())
                &&& !d.switchable() ==> (r matches Ok(inner) && inner matches Err(e) && e matches
                    DeviceError::SwitchOnOffError { device } && device@ == name@)
            }),
            final(self).wf(),
    {
        match self.position_of(name) {
            Some(i) => {
                proof {
                    lemma_device_index_unique(old(self)@.devices, name@, i as int);
                }
                let device = &mut self.devices[i];
                let inner = device.switch_device();
                proof {
                    let d = old(self)@.device_at(name@);
                    assert(self@.devices =~= old(self)@.devices.update(i as int, d.switched()));
                    assert(self@ == old(self)@.switch_device(name@));
                    assert forall|p: int, q: int|
                        0 <= p < q < self@.devices.len() implies self@.devices[p].name()
                        != self@.devices[q].name() by {
                        assert(old(self)@.devices[p].name() != old(self)@.devices[q].name());
                    }
                }
                Ok(inner)
            },
            None => Err(
                HomeError::NoDeviceInRoom { room: self.name.clone(), device: name.to_owned() },
            ),
        }
    }
}

/// The mathematical model of a home: its label and its rooms, in insertion
/// order.
pub ghost struct HomeModel {
    pub name: Seq<char>,
    pub rooms: Seq<RoomModel>,
}

/// Whether all names in `rooms` are pairwise distinct.
pub open spec fn distinct_room_names(rooms: Seq<RoomModel>) -> bool {
    forall|i: int, j: int| 0 <= i < j < rooms.len() ==> rooms[i].name != rooms[j].name
}

/// Whether some room in `rooms` is named `n`.
pub open spec fn has_room_named(rooms: Seq<RoomModel>, n: Seq<char>) -> bool {
    exists|i: int| 0 <= i < rooms.len() && rooms[i].name == n
}

/// The index of the room named `n` in `rooms` (meaningful only when
/// `has_room_named(rooms, n)` holds; unique under distinct names).
pub open spec fn room_index(rooms: Seq<RoomModel>, n: Seq<char>) -> int {
    choose|i: int| 0 <= i < rooms.len() && rooms[i].name == n
}

/// The header line of one room's section in the home report.
pub open spec fn room_header(n: Seq<char>) -> Seq<char> {
    "Room "@ + n + " info\n"@
}

/// The concatenation of the report sections of `rooms`, in order: each
/// room's header line followed by its devices' status blocks.
pub open spec fn rooms_text(rooms: Seq<RoomModel>) -> Seq<char>
    decreases rooms.len(),
{
    if rooms.len() == 0 {
        Seq::empty()
    } else {
        rooms_text(rooms.drop_last()) + room_header(rooms.last().name) + devices_text(
            rooms.last().devices,
        )
    }
}

impl HomeModel {
    /// Room names are unique, and every room is itself well formed.
    pub open spec fn wf(self) -> bool {
        &&& distinct_room_names(self.rooms)
        &&& forall|i: int| 0 <= i < self.rooms.len() ==> self.rooms[i].wf()
    }

    /// Whether the home holds a room named `n`.
    pub open spec fn has_room(self, n: Seq<char>) -> bool {
        has_room_named(self.rooms, n)
    }

    /// The room named `n` (meaningful only when `has_room(n)` holds).
    pub open spec fn room_at(self, n: Seq<char>) -> RoomModel {
        self.rooms[room_index(self.rooms, n)]
    }

    /// The home after inserting `r`: a room with the same name is replaced
    /// in place (its devices are dropped with it), otherwise `r` is
    /// appended.
    pub open spec fn add_room(self, r: RoomModel) -> HomeModel {
        if self.has_room(r.name) {
            HomeModel {
                name: self.name,
                rooms: self.rooms.update(room_index(self.rooms, r.name), r),
            }
        } else {
            HomeModel { name: self.name, rooms: self.rooms.push(r) }
        }
    }

    /// The home after removing the room named `n` (meaningful only when
    /// `has_room(n)` holds).
    pub open spec fn remove_room(self, n: Seq<char>) -> HomeModel {
        HomeModel { name: self.name, rooms: self.rooms.remove(room_index(self.rooms, n)) }
    }

    /// The home after inserting `d` into the room named `rn` (meaningful
    /// only when `has_room(rn)` holds).
    pub open spec fn add_device(self, rn: Seq<char>, d: DeviceModel) -> HomeModel {
        let i = room_index(self.rooms, rn);
        HomeModel { name: self.name, rooms: self.rooms.update(i, self.rooms[i].add_device(d)) }
    }

    /// The home after removing the device named `dn` from the room named
    /// `rn` (meaningful only when that room and device exist).
    pub open spec fn remove_device(self, rn: Seq<char>, dn: Seq<char>) -> HomeModel {
        let i = room_index(self.rooms, rn);
        HomeModel { name: self.name, rooms: self.rooms.update(i, self.rooms[i].remove_device(dn)) }
    }

    /// The home after switching the device named `dn` in the room named `rn`
    /// in place (meaningful only when that room and device exist).
    pub open spec fn switch_device(self, rn: Seq<char>, dn: Seq<char>) -> HomeModel {
        let i = room_index(self.rooms, rn);
        HomeModel { name: self.name, rooms: self.rooms.update(i, self.rooms[i].switch_device(dn)) }
    }

    /// Whether every device of every room renders its state successfully.
    pub open spec fn report_ok(self) -> bool {
        forall|i: int| 0 <= i < self.rooms.len() ==> self.rooms[i].report_ok()
    }

    /// The whole-home report: a fixed banner, then each room's section in
    /// insertion order.
    pub open spec fn report_text(self) -> Seq<char> {
        "\n---------Home Report--------\n"@ + rooms_text(self.rooms)
    }
}

/// The name of the first device, in room order then device order, whose
/// state does not render (meaningful only when such a device exists).
pub open spec fn home_first_failing_name(rooms: Seq<RoomModel>) -> Seq<char>
    decreases rooms.len(),
{
    if rooms.len() == 0 {
        Seq::empty()
    } else if !rooms.first().report_ok() {
        first_failing_name(rooms.first().devices)
    } else {
        home_first_failing_name(rooms.drop_first())
    }
}

/// When the rooms before index `i` all render and the one at `i` does not,
/// `home_first_failing_name` names that room's first failing device.
pub proof fn lemma_home_first_failing_name(rooms: Seq<RoomModel>, i: int)
    requires
        0 <= i < rooms.len(),
        !rooms[i].report_ok(),
        forall|j: int| 0 <= j < i ==> rooms[j].report_ok(),
    ensures
        home_first_failing_name(rooms) == first_failing_name(rooms[i].devices),
    decreases i,
{
    if i > 0 {
        assert forall|j: int| 0 <= j < i - 1 implies rooms.drop_first()[j].report_ok() by {
            assert(rooms.drop_first()[j] == rooms[j + 1]);
        }
        assert(rooms.drop_first()[i - 1] == rooms[i]);
        lemma_home_first_failing_name(rooms.drop_first(), i - 1);
    }
}

/// With distinct names, any index whose room is named `n` is the index
/// `room_index` picks.
pub proof fn lemma_room_index_unique(rooms: Seq<RoomModel>, n: Seq<char>, i: int)
    requires
        distinct_room_names(rooms),
        0 <= i < rooms.len(),
        rooms[i].name == n,
    ensures
        has_room_named(rooms, n),
        room_index(rooms, n) == i,
{
    assert(has_room_named(rooms, n));
    let k = room_index(rooms, n);
    assert(0 <= k < rooms.len() && rooms[k].name == n);
    if k < i {
        assert(rooms[k].name != rooms[i].name);
    } else if i < k {
        assert(rooms[i].name != rooms[k].name);
    }
}

/// Inserting a device into a well-formed room keeps it well formed, and
/// afterwards exactly the inserted device is stored under its name.
pub proof fn lemma_room_add_device(r: RoomModel, d: DeviceModel)
    requires
        r.wf(),
    ensures
        ({
            let r2 = r.add_device(d);
            &&& r2.wf()
            &&& r2.name == r.name
            &&& r2.has_device(d.name())
            &&& r2.device_at(d.name()) == d
            &&& r2.devices.len() == if r.has_device(d.name()) {
                r.devices.len()
            } else {
                r.devices.len() + 1
            }
        }),
{
    let r2 = r.add_device(d);
    if r.has_device(d.name()) {
        let i = device_index(r.devices, d.name());
        assert(0 <= i < r.devices.len() && r.devices[i].name() == d.name());
        assert forall|p: int, q: int|
            0 <= p < q < r2.devices.len() implies r2.devices[p].name()
            != r2.devices[q].name() by {
            assert(r.devices[p].name() != r.devices[q].name());
        }
        lemma_device_index_unique(r2.devices, d.name(), i);
    } else {
        let i = r.devices.len() as int;
        assert forall|p: int, q: int|
            0 <= p < q < r2.devices.len() implies r2.devices[p].name()
            != r2.devices[q].name() by {
            if q < i {
                assert(r.devices[p].name() != r.devices[q].name());
            }
        }
        lemma_device_index_unique(r2.devices, d.name(), i);
    }
}

/// Removing a device from a well-formed room keeps it well formed, and the
/// removed name is gone afterwards.
pub proof fn lemma_room_remove_device(r: RoomModel, n: Seq<char>)
    requires
        r.wf(),
        r.has_device(n),
    ensures
        ({
            let r2 = r.remove_device(n);
            &&& r2.wf()
            &&& r2.name == r.name
            &&& !r2.has_device(n)
            &&& r2.devices.len() == r.devices.len() - 1
        }),
{
    let i = device_index(r.devices, n);
    assert(0 <= i < r.devices.len() && r.devices[i].name() == n);
    let r2 = r.remove_device(n);
    assert forall|p: int, q: int|
        0 <= p < q < r2.devices.len() implies r2.devices[p].name() != r2.devices[q].name() by {
        let p0 = if p < i {
            p
        } else {
            p + 1
        };
        let q0 = if q < i {
            q
        } else {
            q + 1
        };
        assert(r.devices[p0].name() != r.devices[q0].name());
    }
    assert forall|j: int| 0 <= j < r2.devices.len() implies r2.devices[j].name() != n by {
        let j0 = if j < i {
            j
        } else {
            j + 1
        };
        assert(r2.devices[j] == r.devices[j0]);
        if j0 != i {
            assert(r.devices[j0].name() != r.devices[i].name());
        }
    }
}

/// The aggregate root: a labelled collection of rooms keyed by name.
pub struct Home {
    name: String,
    rooms: Vec<Room>,
}

impl View for Home {
    type V = HomeModel;

    closed spec fn view(&self) -> HomeModel {
        HomeModel { name: self.name@, rooms: self.rooms@.map_values(|r: Room| r@) }
    }
}

impl Home {
    /// Room names are unique and every room is well formed. Established by
    /// [`Home::new`] and preserved by every operation.
    pub open spec fn wf(&self) -> bool {
        self@.wf()
    }

    /// Creates a home with no rooms.
    pub fn new(name: String) -> (r: Self)
        ensures
            r@ == (HomeModel { name: name@, rooms: Seq::<RoomModel>::empty() }),
            r.wf(),
    {
        let r = Home { rooms: Vec::new(), name };
        proof {
            assert(r@.rooms =~= Seq::<RoomModel>::empty());
        }
        r
    }

    /// The index of the room named `name`, if the home holds one.
    fn position_of(&self, name: &str) -> (r: Option<usize>)
        ensures
            r matches Some(i) ==> 0 <= i < self@.rooms.len() && self@.rooms[i as int].name
                == name@,
            r is None ==> !self@.has_room(name@),
    {
        let wanted: String = name.to_owned();
        let mut i: usize = 0;
        while i < self.rooms.len()
            invariant
                0 <= i <= self.rooms.len(),
                self@.rooms.len() == self.rooms.len(),
                wanted@ == name@,
                forall|j: int| 0 <= j < i ==> self@.rooms[j].name != name@,
            decreases self.rooms.len() - i,
        {
            let candidate: String = self.rooms[i].name.clone();
            if candidate == wanted {
                return Some(i);
            }
            i += 1;
        }
        None
    }

    /// Inserts `room` under its name. A room already stored under that name
    /// is replaced (its devices are dropped with it); the returned message
    /// says which of the two happened.
    pub fn add_room(&mut self, room: Room) -> (r: String)
        requires
            old(self).wf(),
            room.wf(),
        ensures
            final(self)@ == old(self)@.add_room(room@),
            final(self).wf(),
            old(self)@.has_room(room@.name) ==> r@ == "Existed room was updated: "@ + room@.name,
            !old(self)@.has_room(room@.name) ==> r@ == "New room added"@,
    {
        let pos = self.position_of(room.name.as_str());
        match pos {
            Some(i) => {
                proof {
                    lemma_room_index_unique(old(self)@.rooms, room@.name, i as int);
                }
                let mut msg = String::from_str("Existed room was updated: ");
                msg.append(room.name.as_str());
                self.rooms[i] = room;
                proof {
                    assert(self@.rooms =~= old(self)@.rooms.update(i as int, room@));
                    assert(self@ == old(self)@.add_room(room@));
                    assert forall|p: int, q: int|
                        0 <= p < q < self@.rooms.len() implies self@.rooms[p].name
                        != self@.rooms[q].name by {
                        assert(old(self)@.rooms[p].name != old(self)@.rooms[q].name);
                    }
                }
                msg
            },
            None => {
                self.rooms.push(room);
                proof {
                    assert(self@.rooms =~= old(self)@.rooms.push(room@));
                    assert(self@ == old(self)@.add_room(room@));
                    assert forall|p: int, q: int|
                        0 <= p < q < self@.rooms.len() implies self@.rooms[p].name
                        != self@.rooms[q].name by {
                        if q < old(self)@.rooms.len() {
                            assert(old(self)@.rooms[p].name != old(self)@.rooms[q].name);
                        } else {
                            assert(!old(self)@.has_room(room@.name));
                        }
                    }
                }
                String::from_str("New room added")
            },
        }
    }

    /// Non-owning lookup of the room named `name`; fails with `NoRoomInHome`
    /// naming the missing room when no such room exists.
    pub fn get_room(&self, name: &str) -> (r: Result<&Room, HomeError>)
        requires
            self.wf(),
        ensures
            self@.has_room(name@) ==> (r matches Ok(room) && room@ == self@.room_at(name@)),
            !self@.has_room(name@) ==> (r matches Err(e) && e matches HomeError::NoRoomInHome {
                room,
            } && room@ == name@),
    {
        match self.position_of(name) {
            Some(i) => {
                proof {
                    lemma_room_index_unique(self@.rooms, name@, i as int);
                }
                Ok(&self.rooms[i])
            },
            None => Err(HomeError::NoRoomInHome { room: name.to_owned() }),
        }
    }

    /// Removes the room named `name` and returns its ownership (devices
    /// included), or fails with `NoRoomInHome` naming the missing room,
    /// leaving the home unchanged.
    pub fn remove_room(&mut self, name: &str) -> (r: Result<Room, HomeError>)
        requires
            old(self).wf(),
        ensures
            old(self)@.has_room(name@) ==> (r matches Ok(room) && room@ == old(self)@.room_at(
                name@,
            ) && final(self)@ == old(self)@.remove_room(name@)),
            !old(self)@.has_room(name@) ==> (r matches Err(e) && e matches
                HomeError::NoRoomInHome { room } && room@ == name@ && final(self)@ == old(self)@),
            final(self).wf(),
    {
        match self.position_of(name) {
            Some(i) => {
                proof {
                    lemma_room_index_unique(old(self)@.rooms, name@, i as int);
                }
                let room = self.rooms.remove(i);
                proof {
                    assert(self@.rooms =~= old(self)@.rooms.remove(i as int));
                    assert(self@ == old(self)@.remove_room(name@));
                    assert forall|p: int, q: int|
                        0 <= p < q < self@.rooms.len() implies self@.rooms[p].name
                        != self@.rooms[q].name by {
                        let p0 = if p < i {
                            p
                        } else {
                            p + 1
                        };
                        let q0 = if q < i {
                            q
                        } else {
                            q + 1
                        };
                        assert(old(self)@.rooms[p0].name != old(self)@.rooms[q0].name);
                    }
                }
                Ok(room)
            },
            None => Err(HomeError::NoRoomInHome { room: name.to_owned() }),
        }
    }

    /// Inserts `device` into the room named `room_name` and returns a
    /// reference to the just-inserted device. When no such room exists, the
    /// home is left entirely unchanged and the error names the missing room
    /// and hands the rejected device back to the caller's ownership.
    pub fn add_device(&mut self, room_name: &str, device: Device) -> (r: Result<
        &Device,
        (HomeError, Device),
    >)
        requires
            old(self).wf(),
        ensures
            old(self)@.has_room(room_name@) ==> (r matches Ok(d) && d@ == device@
                && final(self)@ == old(self)@.add_device(room_name@, device@)),
            !old(self)@.has_room(room_name@) ==> (r matches Err((e, d)) && e matches
                HomeError::NoRoomInHome { room } && room@ == room_name@ && d == device
                && final(self)@ == old(self)@),
            final(self).wf(),
    {
        let pos = self.position_of(room_name);
        match pos {
            Some(i) => {
                proof {
                    lemma_room_index_unique(old(self)@.rooms, room_name@, i as int);
                }
                let device_name: String = device.name().to_owned();
                let ghost dm = device@;
                let room = &mut self.rooms[i];
                room.add_device(device);
                proof {
                    assert(self@.rooms =~= old(self)@.rooms.update(
                        i as int,
                        old(self)@.rooms[i as int].add_device(dm),
                    ));
                    assert(self@ == old(self)@.add_device(room_name@, dm));
                    lemma_room_add_device(old(self)@.rooms[i as int], dm);
                    assert forall|p: int, q: int|
                        0 <= p < q < self@.rooms.len() implies self@.rooms[p].name
                        != self@.rooms[q].name by {
                        assert(old(self)@.rooms[p].name != old(self)@.rooms[q].name);
                    }
                }
                match self.rooms[i].get_device(device_name.as_str()) {
                    Some(d) => Ok(d),
                    None => unreached(),
                }
            },
            None => Err((HomeError::NoRoomInHome { room: room_name.to_owned() }, device)),
        }
    }

    /// Removes the device named `device_name` from the room named
    /// `room_name` and returns its ownership. Fails with `NoRoomInHome`
    /// naming the missing room, or with `NoDeviceInRoom` naming the room and
    /// the missing device; a failed call leaves the home unchanged.
    pub fn remove_device(&mut self, room_name: &str, device_name: &str) -> (r: Result<
        Device,
        HomeError,
    >)
        requires
            old(self).wf(),
        ensures
            !old(self)@.has_room(room_name@) ==> (r matches Err(e) && e matches
                HomeError::NoRoomInHome { room } && room@ == room_name@
                && final(self)@ == old(self)@),
            old(self)@.has_room(room_name@) && !old(self)@.room_at(room_name@).has_device(
                device_name@,
            ) ==> (r matches Err(e) && e matches HomeError::NoDeviceInRoom { room, device }
                && room@ == room_name@ && device@ == device_name@ && final(self)@ == old(self)@),
            old(self)@.has_room(room_name@) && old(self)@.room_at(room_name@).has_device(
                device_name@,
            ) ==> (r matches Ok(d) && d@ == old(self)@.room_at(room_name@).device_at(device_name@)
                && final(self)@ == old(self)@.remove_device(room_name@, device_name@)),
            final(self).wf(),
    {
        let pos = self.position_of(room_name);
        match pos {
            Some(i) => {
                proof {
                    lemma_room_index_unique(old(self)@.rooms, room_name@, i as int);
                }
                let room = &mut self.rooms[i];
                let result = room.remove_device(device_name);
                proof {
                    let before = old(self)@.rooms[i as int];
                    if before.has_device(device_name@) {
                        lemma_room_remove_device(before, device_name@);
                        assert(self@.rooms =~= old(self)@.rooms.update(
                            i as int,
                            before.remove_device(device_name@),
                        ));
                        assert(self@ == old(self)@.remove_device(room_name@, device_name@));
                        assert forall|p: int, q: int|
                            0 <= p < q < self@.rooms.len() implies self@.rooms[p].name
                            != self@.rooms[q].name by {
                            assert(old(self)@.rooms[p].name != old(self)@.rooms[q].name);
                        }
                    } else {
                        assert(self@.rooms =~= old(self)@.rooms);
                        assert(self@ == old(self)@);
                    }
                }
                result
            },
            None => Err(HomeError::NoRoomInHome { room: room_name.to_owned() }),
        }
    }

    /// Builds the whole-home report: the banner, then each room's header and
    /// device status blocks in insertion order. The first device that cannot
    /// render (an off socket) aborts the whole report with
    /// `DeviceIsTurnedOff` naming that device.
    pub fn write_report(&self) -> (r: Result<String, DeviceError>)
        ensures
            self@.report_ok() ==> (r matches Ok(s) && s@ == self@.report_text()),
            !self@.report_ok() ==> (r matches Err(e) && e matches
                DeviceError::DeviceIsTurnedOff { device } && device@ == home_first_failing_name(
                self@.rooms,
            )),
    {
        proof {
            reveal_strlit("\n---------Home Report--------\n");
        }
        let mut report = String::from_str("\n---------Home Report--------\n");
        let mut i: usize = 0;
        while i < self.rooms.len()
            invariant
                0 <= i <= self.rooms.len(),
                self@.rooms.len() == self.rooms.len(),
                forall|j: int| 0 <= j < i ==> self@.rooms[j].report_ok(),
                report@ == "\n---------Home Report--------\n"@ + rooms_text(self@.rooms.take(
                    i as int,
                )),
            decreases self.rooms.len() - i,
        {
            proof {
                reveal_strlit("Room ");
                reveal_strlit(" info\n");
            }
            report.append("Room ");
            report.append(self.rooms[i].name.as_str());
            report.append(" info\n");
            match self.rooms[i].devices_state() {
                Ok(t) => {
                    report.append(t.as_str());
                    proof {
                        assert(self@.rooms.take(i + 1 as int).drop_last() =~= self@.rooms.take(
                            i as int,
                        ));
                        assert(report@ =~= "\n---------Home Report--------\n"@ + rooms_text(
                            self@.rooms.take(i + 1 as int),
                        ));
                    }
                },
                Err(e) => {
                    proof {
                        lemma_home_first_failing_name(self@.rooms, i as int);
                    }
                    return Err(e);
                },
            }
            i += 1;
        }
        proof {
            assert(self@.rooms.take(self.rooms.len() as int) =~= self@.rooms);
        }
        Ok(report)
    }

    /// Switches the device named `device_name` in the room named `room_name`
    /// in place, without removing anything. The outer error reports a failed
    /// lookup (naming the missing room or device); the inner result is the
    /// device's own switch outcome.
    pub fn switch_device(&mut self, room_name: &str, device_name: &str) -> (r: Result<
        Result<String, DeviceError>,
        HomeError,
    >)
        requires
            old(self).wf(),
        ensures
            !old(self)@.has_room(room_name@) ==> (r matches Err(e) && e matches
                HomeError::NoRoomInHome { room } && room@ == room_name@
                && final(self)@ == old(self)@),
            old(self)@.has_room(room_name@) && !old(self)@.room_at(room_name@).has_device(
                device_name@,
            ) ==> (r matches Err(e) && e matches HomeError::NoDeviceInRoom { room, device }
                && room@ == room_name@ && device@ == device_name@ && final(self)@ == old(self)@),
            old(self)@.has_room(room_name@) && old(self)@.room_at(room_name@).has_device(
                device_name@,
            ) ==> ({
                let d = old(self)@.room_at(room_name@).device_at(device_name@);
                &&& final(self)@ == old(self)@.switch_device(room_name@, device_name@)
                &&& d.switchable() ==> (r matches Ok(inner) && inner matches Ok(s) && s@
                    == d.switch_label())
                &&& !d.switchable() ==> (r matches Ok(inner) && inner matches Err(e) && e matches
                    DeviceError::SwitchOnOffError { device } && device@ == device_name@)
            }),
            final(self).wf(),
    {
        let pos = self.position_of(room_name);
        match pos {
            Some(i) => {
                proof {
                    lemma_room_index_unique(old(self)@.rooms, room_name@, i as int);
                }
                let room = &mut self.rooms[i];
                let result = room.switch_device(device_name);
                proof {
                    let before = old(self)@.rooms[i as int];
                    if before.has_device(device_name@) {
                        assert(self@.rooms =~= old(self)@.rooms.update(
                            i as int,
                            before.switch_device(device_name@),
                        ));
                        assert(self@ == old(self)@.switch_device(room_name@, device_name@));
                        assert forall|p: int, q: int|
                            0 <= p < q < self@.rooms.len() implies self@.rooms[p].name
                            != self@.rooms[q].name by {
                            assert(old(self)@.rooms[p].name != old(self)@.rooms[q].name);
                        }
                    } else {
                        assert(self@.rooms =~= old(self)@.rooms);
                        assert(self@ == old(self)@);
                    }
                }
                result
            },
            None => Err(HomeError::NoRoomInHome { room: room_name.to_owned() }),
        }
    }
}

} // verus!
