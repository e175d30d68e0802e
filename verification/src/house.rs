//! The house registry: a named house holding an ordered list of rooms,
//! each with an ordered list of devices, plus report generation.

use vstd::prelude::*;
use vstd::string::StringExecFns;

use crate::devices::DeviceInfoProvider;
use crate::devices::DeviceTypes;
use crate::devices::RoomTypes;
use crate::devices::str_eq;

verus! {

/// A room: a name and the ordered list of devices registered in it.
pub struct Room {
    pub name: String,
    pub devices: Vec<DeviceTypes>,
}

/// The mathematical value of a room.
#[verifier::ext_equal]
pub struct RoomView {
    pub name: Seq<char>,
    pub devices: Seq<DeviceTypes>,
}

impl View for Room {
    type V = RoomView;

    open spec fn view(&self) -> RoomView {
        RoomView { name: self.name@, devices: self.devices@ }
    }
}

/// A house: a display name and the ordered list of its rooms.
pub struct SmartHouse {
    pub name: String,
    pub rooms: Vec<Room>,
}

/// The mathematical value of a house.
#[verifier::ext_equal]
pub struct HouseView {
    pub name: Seq<char>,
    pub rooms: Seq<RoomView>,
}

/// The values of a sequence of rooms, in order.
pub open spec fn rooms_view(rooms: Seq<Room>) -> Seq<RoomView> {
    Seq::new(rooms.len(), |i: int| rooms[i]@)
}

impl View for SmartHouse {
    type V = HouseView;

    open spec fn view(&self) -> HouseView {
        HouseView { name: self.name@, rooms: rooms_view(self.rooms@) }
    }
}

/// Whether some room in `rooms` is named `name`.
pub open spec fn has_room(rooms: Seq<RoomView>, name: Seq<char>) -> bool {
    exists|i: int| 0 <= i < rooms.len() && rooms[i].name == name
}

/// Whether `i` is the position of the first room named `name`.
pub open spec fn is_first_room(rooms: Seq<RoomView>, name: Seq<char>, i: int) -> bool {
    &&& 0 <= i < rooms.len()
    &&& rooms[i].name == name
    &&& forall|j: int| 0 <= j < i ==> rooms[j].name != name
}

/// The position of the first room named `name`; meaningful only when
/// `has_room` holds.
pub open spec fn first_room_index(rooms: Seq<RoomView>, name: Seq<char>) -> int {
    choose|i: int| is_first_room(rooms, name, i)
}

/// Room names are pairwise distinct.
pub open spec fn house_wf(rooms: Seq<RoomView>) -> bool {
    forall|i: int, j: int| 0 <= i < j < rooms.len() ==> rooms[i].name != rooms[j].name
}

/// At most one position holds a room named `name` at a time.
pub proof fn lemma_first_room_unique(rooms: Seq<RoomView>, name: Seq<char>, i: int, j: int)
    requires
        is_first_room(rooms, name, i),
        is_first_room(rooms, name, j),
    ensures
        i == j,
{
}

/// Wherever a room named `name` exists, a first such room exists.
pub proof fn lemma_first_room_exists(rooms: Seq<RoomView>, name: Seq<char>)
    requires
        has_room(rooms, name),
    ensures
        is_first_room(rooms, name, first_room_index(rooms, name)),
    decreases rooms.len(),
{
    if rooms[0].name == name {
        assert(is_first_room(rooms, name, 0));
    } else {
        let w = choose|i: int| 0 <= i < rooms.len() && rooms[i].name == name;
        let tail = rooms.skip(1);
        assert(tail[w - 1] == rooms[w]);
        assert(has_room(tail, name));
        lemma_first_room_exists(tail, name);
        let f = first_room_index(tail, name);
        assert(rooms[f + 1] == tail[f]);
        assert(forall|j: int| 0 <= j < f + 1 ==> rooms[j].name != name) by {
            assert(forall|j: int| 1 <= j < f + 1 ==> rooms[j] == tail[j - 1]);
        }
        assert(is_first_room(rooms, name, f + 1));
    }
}

/// Keeps the rooms whose name differs from `name`.
pub open spec fn keeps_name(name: Seq<char>) -> spec_fn(RoomView) -> bool {
    |r: RoomView| r.name != name
}

/// Keeps the devices that differ from `device`.
pub open spec fn keeps_device(device: DeviceTypes) -> spec_fn(DeviceTypes) -> bool {
    |d: DeviceTypes| d != device
}

/// The rooms after `remove_room(name)`: every room of that name deleted,
/// the rest kept in order.
pub open spec fn spec_remove_room(rooms: Seq<RoomView>, name: Seq<char>) -> Seq<RoomView> {
    rooms.filter(keeps_name(name))
}

/// The device list after `remove_device`: every occurrence of `device`
/// deleted, the rest kept in order.
pub open spec fn spec_remove_devices(devices: Seq<DeviceTypes>, device: DeviceTypes) -> Seq<
    DeviceTypes,
> {
    devices.filter(keeps_device(device))
}

/// The rooms after `add_device(name, device)`: unchanged when no room is
/// named `name`, else `device` appended to the first such room's list.
pub open spec fn spec_add_device(
    rooms: Seq<RoomView>,
    name: Seq<char>,
    device: DeviceTypes,
) -> Seq<RoomView> {
    if !has_room(rooms, name) {
        rooms
    } else {
        let i = first_room_index(rooms, name);
        rooms.update(
            i,
            RoomView { name: rooms[i].name, devices: rooms[i].devices.push(device) },
        )
    }
}

/// The rooms after `remove_device(name, device)`: unchanged when no room
/// is named `name`, else `device` filtered out of the first such room's
/// list.
pub open spec fn spec_remove_device(
    rooms: Seq<RoomView>,
    name: Seq<char>,
    device: DeviceTypes,
) -> Seq<RoomView> {
    if !has_room(rooms, name) {
        rooms
    } else {
        let i = first_room_index(rooms, name);
        rooms.update(
            i,
            RoomView {
                name: rooms[i].name,
                devices: spec_remove_devices(rooms[i].devices, device),
            },
        )
    }
}

/// The device list of the first room named `name`, if any.
pub open spec fn room_devices(rooms: Seq<RoomView>, name: Seq<char>) -> Option<Seq<DeviceTypes>>
    decreases rooms.len(),
{
    if rooms.len() == 0 {
        None
    } else if rooms[0].name == name {
        Some(rooms[0].devices)
    } else {
        room_devices(rooms.skip(1), name)
    }
}

/// A lookup of an absent name yields no answer.
pub proof fn lemma_room_devices_none(rooms: Seq<RoomView>, name: Seq<char>)
    requires
        !has_room(rooms, name),
    ensures
        room_devices(rooms, name) is None,
    decreases rooms.len(),
{
    if rooms.len() > 0 {
        let tail = rooms.skip(1);
        assert(!has_room(tail, name)) by {
            if has_room(tail, name) {
                let w = choose|i: int| 0 <= i < tail.len() && tail[i].name == name;
                assert(rooms[w + 1] == tail[w]);
            }
        }
        lemma_room_devices_none(tail, name);
    }
}

/// A lookup yields the device list of the first room of that name.
pub proof fn lemma_room_devices_first(rooms: Seq<RoomView>, name: Seq<char>, i: int)
    requires
        is_first_room(rooms, name, i),
    ensures
        room_devices(rooms, name) == Some(rooms[i].devices),
    decreases rooms.len(),
{
    if i > 0 {
        let tail = rooms.skip(1);
        assert(is_first_room(tail, name, i - 1)) by {
            assert(tail[i - 1] == rooms[i]);
            assert(forall|j: int| 0 <= j < i - 1 ==> tail[j] == rooms[j + 1]);
        }
        lemma_room_devices_first(tail, name, i - 1);
    }
}

/// The rooms after `add_room(name)`: unchanged when a room named `name`
/// already exists, else extended with an empty room of that name.
pub open spec fn spec_add_room(rooms: Seq<RoomView>, name: Seq<char>) -> Seq<RoomView> {
    if has_room(rooms, name) {
        rooms
    } else {
        rooms.push(RoomView { name, devices: Seq::empty() })
    }
}

/// Copies a device list.
fn clone_devices(devices: &Vec<DeviceTypes>) -> (r: Vec<DeviceTypes>)
    ensures
        r@ == devices@,
{
    let mut out: Vec<DeviceTypes> = Vec::new();
    let mut i: usize = 0;
    while i < devices.len()
        invariant
            i <= devices.len(),
            out@ == devices@.take(i as int),
        decreases devices.len() - i,
    {
        out.push(devices[i]);
        proof {
            assert(out@ =~= devices@.take(i + 1));
        }
        i = i + 1;
    }
    proof {
        assert(devices@.take(devices@.len() as int) =~= devices@);
    }
    out
}

/// Copies a device list, dropping every occurrence of `device`.
fn remove_all_devices(devices: &Vec<DeviceTypes>, device: DeviceTypes) -> (r: Vec<DeviceTypes>)
    ensures
        r@ == spec_remove_devices(devices@, device),
{
    let mut out: Vec<DeviceTypes> = Vec::new();
    let mut i: usize = 0;
    proof {
        reveal(Seq::filter);
    }
    while i < devices.len()
        invariant
            i <= devices.len(),
            out@ == spec_remove_devices(devices@.take(i as int), device),
        decreases devices.len() - i,
    {
        let d = devices[i];
        proof {
            reveal(Seq::filter);
            assert(devices@.take(i + 1).drop_last() =~= devices@.take(i as int));
            assert(devices@.take(i + 1).last() == devices@[i as int]);
        }
        if !(d == device) {
            out.push(d);
        }
        i = i + 1;
    }
    proof {
        assert(devices@.take(devices@.len() as int) =~= devices@);
    }
    out
}

/// Copies a room.
fn clone_room(room: &Room) -> (r: Room)
    ensures
        r@ == room@,
{
    let r = Room { name: room.name.clone(), devices: clone_devices(&room.devices) };
    proof {
        assert(r@ =~~= room@);
    }
    r
}

/// Deleting rooms never breaks name distinctness.
pub proof fn lemma_remove_room_wf(rooms: Seq<RoomView>, name: Seq<char>)
    requires
        house_wf(rooms),
    ensures
        house_wf(spec_remove_room(rooms, name)),
    decreases rooms.len(),
{
    reveal(Seq::filter);
    if rooms.len() > 0 {
        let prefix = rooms.drop_last();
        assert(house_wf(prefix));
        lemma_remove_room_wf(prefix, name);
        let kept = spec_remove_room(prefix, name);
        if keeps_name(name)(rooms.last()) {
            assert forall|k: int| 0 <= k < kept.len() implies kept[k].name
                != rooms.last().name by {
                assert(kept.contains(kept[k]));
                prefix.lemma_filter_contains_rev(keeps_name(name), kept[k]);
                let m = choose|m: int| 0 <= m < prefix.len() && prefix[m] == kept[k];
                assert(rooms[m] == prefix[m]);
                assert(rooms[m].name != rooms[rooms.len() - 1].name);
            }
            assert(house_wf(kept.push(rooms.last())));
        }
    }
}

impl SmartHouse {
    /// Position of the first room whose name matches, if any.
    fn find_room(&self, name: &str) -> (r: Option<usize>)
        ensures
            (match r {
                Some(i) => is_first_room(self@.rooms, name@, i as int),
                None => !has_room(self@.rooms, name@),
            }),
    {
        let mut i: usize = 0;
        while i < self.rooms.len()
            invariant
                i <= self.rooms.len(),
                forall|j: int| 0 <= j < i ==> self@.rooms[j].name != name@,
            decreases self.rooms.len() - i,
        {
            if str_eq(self.rooms[i].name.as_str(), name) {
                return Some(i);
            }
            i = i + 1;
        }
        None
    }

    /// Seeds a house with a living room and a kitchen, pre-populated in a
    /// fixed order.
    pub fn new(name: &str) -> (h: SmartHouse)
        ensures
            h@.name == name@,
            h@.rooms == seed_rooms(),
            house_wf(h@.rooms),
    {
        let mut living_devices: Vec<DeviceTypes> = Vec::new();
        living_devices.push(DeviceTypes::TV);
        living_devices.push(DeviceTypes::Lamp);
        living_devices.push(DeviceTypes::Thermo);
        let mut kitchen_devices: Vec<DeviceTypes> = Vec::new();
        kitchen_devices.push(DeviceTypes::Lamp);
        kitchen_devices.push(DeviceTypes::Thermo);
        kitchen_devices.push(DeviceTypes::Fridge);
        let mut rooms: Vec<Room> = Vec::new();
        rooms.push(Room { name: "Living".to_owned(), devices: living_devices });
        rooms.push(Room { name: "Kitchen".to_owned(), devices: kitchen_devices });
        let h = SmartHouse { name: name.to_owned(), rooms };
        proof {
            reveal_strlit("Living");
            reveal_strlit("Kitchen");
            assert(h@.rooms =~~= seed_rooms());
            assert("Living"@.len() == 6);
            assert("Kitchen"@.len() == 7);
            assert("Living"@ != "Kitchen"@);
            assert(house_wf(h@.rooms));
        }
        h
    }

    /// Appends an empty room named `name`, unless one of that name already
    /// exists (then this is a silent no-op). Keeps names pairwise distinct.
    pub fn add_room(&mut self, name: &str)
        ensures
            final(self)@.name == old(self)@.name,
            final(self)@.rooms == spec_add_room(old(self)@.rooms, name@),
            house_wf(old(self)@.rooms) ==> house_wf(final(self)@.rooms),
    {
        match self.find_room(name) {
            Some(_) => {},
            None => {
                self.rooms.push(Room { name: name.to_owned(), devices: Vec::new() });
                proof {
                    assert(final(self)@.rooms =~~= spec_add_room(old(self)@.rooms, name@));
                }
            },
        }
    }

    /// Deletes every room named `name`; a silent no-op when none exists.
    pub fn remove_room(&mut self, name: &str)
        ensures
            final(self)@.name == old(self)@.name,
            final(self)@.rooms == spec_remove_room(old(self)@.rooms, name@),
            !has_room(old(self)@.rooms, name@) ==> final(self)@.rooms == old(self)@.rooms,
            house_wf(old(self)@.rooms) ==> house_wf(final(self)@.rooms),
    {
        let mut kept: Vec<Room> = Vec::new();
        let mut i: usize = 0;
        proof {
            reveal(Seq::filter);
        }
        while i < self.rooms.len()
            invariant
                *self == *old(self),
                i <= self.rooms.len(),
                rooms_view(kept@) == spec_remove_room(old(self)@.rooms.take(i as int), name@),
            decreases self.rooms.len() - i,
        {
            let ghost prefix = old(self)@.rooms.take(i as int);
            let ghost prefix1 = old(self)@.rooms.take(i + 1);
            proof {
                reveal(Seq::filter);
                assert(prefix1.drop_last() =~= prefix);
                assert(prefix1.last() == old(self)@.rooms[i as int]);
            }
            let room = &self.rooms[i];
            let ghost kept_before = kept@;
            if !str_eq(room.name.as_str(), name) {
                kept.push(clone_room(room));
                proof {
                    assert(rooms_view(kept@) =~= rooms_view(kept_before).push(room@));
                }
            }
            i = i + 1;
        }
        proof {
            assert(old(self)@.rooms.take(old(self)@.rooms.len() as int) =~= old(self)@.rooms);
        }
        self.rooms = kept;
        proof {
            if !has_room(old(self)@.rooms, name@) {
                lemma_remove_room_absent(old(self)@.rooms, name@);
            }
            if house_wf(old(self)@.rooms) {
                lemma_remove_room_wf(old(self)@.rooms, name@);
            }
        }
    }

    /// Appends `device` to the device list of the first room named `room`;
    /// a silent no-op when no such room exists. Duplicates are permitted.
    pub fn add_device(&mut self, room: &str, device: DeviceTypes)
        ensures
            final(self)@.name == old(self)@.name,
            final(self)@.rooms == spec_add_device(old(self)@.rooms, room@, device),
            house_wf(old(self)@.rooms) ==> house_wf(final(self)@.rooms),
    {
        match self.find_room(room) {
            None => {},
            Some(i) => {
                let room_ref = &mut self.rooms[i];
                room_ref.devices.push(device);
                proof {
                    let ghost rooms0 = old(self)@.rooms;
                    assert(is_first_room(rooms0, room@, i as int));
                    lemma_first_room_unique(
                        rooms0,
                        room@,
                        i as int,
                        first_room_index(rooms0, room@),
                    );
                    assert(self@.rooms =~~= spec_add_device(rooms0, room@, device));
                    assert(forall|j: int|
                        0 <= j < self@.rooms.len() ==> self@.rooms[j].name == rooms0[j].name);
                }
            },
        }
    }

    /// Deletes every occurrence of `device` from the device list of the
    /// first room named `room`; a silent no-op when no such room exists.
    pub fn remove_device(&mut self, room: &str, device: DeviceTypes)
        ensures
            final(self)@.name == old(self)@.name,
            final(self)@.rooms == spec_remove_device(old(self)@.rooms, room@, device),
            house_wf(old(self)@.rooms) ==> house_wf(final(self)@.rooms),
    {
        match self.find_room(room) {
            None => {},
            Some(i) => {
                let filtered = remove_all_devices(&self.rooms[i].devices, device);
                let room_ref = &mut self.rooms[i];
                room_ref.devices = filtered;
                proof {
                    let ghost rooms0 = old(self)@.rooms;
                    assert(is_first_room(rooms0, room@, i as int));
                    lemma_first_room_unique(
                        rooms0,
                        room@,
                        i as int,
                        first_room_index(rooms0, room@),
                    );
                    assert(self@.rooms =~~= spec_remove_device(rooms0, room@, device));
                    assert(forall|j: int|
                        0 <= j < self@.rooms.len() ==> self@.rooms[j].name == rooms0[j].name);
                }
            },
        }
    }

    /// The device list of the first room named `room_name`, in stored
    /// order, or no answer when no such room exists.
    pub fn devices(&self, room_name: &str) -> (r: Option<Vec<DeviceTypes>>)
        ensures
            (match r {
                Some(ds) => room_devices(self@.rooms, room_name@) == Some(ds@),
                None => room_devices(self@.rooms, room_name@) is None,
            }),
            (r is Some) == has_room(self@.rooms, room_name@),
    {
        match self.find_room(room_name) {
            None => {
                proof {
                    lemma_room_devices_none(self@.rooms, room_name@);
                }
                None
            },
            Some(i) => {
                proof {
                    lemma_room_devices_first(self@.rooms, room_name@, i as int);
                }
                Some(clone_devices(&self.rooms[i].devices))
            },
        }
    }

    /// Builds the report for this house: a header line, then one line per
    /// (room, device) pair the provider answers for, iterating rooms and
    /// devices in stored order and silently skipping pairs without an
    /// answer.
    pub fn create_report<T: DeviceInfoProvider>(&self, provider: &T) -> (r: String)
        ensures
            r@ == report_spec(provider, self@),
    {
        let ghost all_rooms = self@.rooms;
        let ghost header = "House: "@ + self@.name + "\n"@;
        let mut report = String::new();
        report.append("House: ");
        report.append(self.name.as_str());
        report.append("\n");
        proof {
            assert(report@ =~= header);
        }
        let mut i: usize = 0;
        while i < self.rooms.len()
            invariant
                i <= self.rooms.len(),
                all_rooms == self@.rooms,
                header == "House: "@ + self@.name + "\n"@,
                report@ == header + rooms_report(provider, all_rooms.take(i as int)),
            decreases self.rooms.len() - i,
        {
            let room = &self.rooms[i];
            let ghost room_name = all_rooms[i as int].name;
            let ghost room_devices_list = all_rooms[i as int].devices;
            let mut j: usize = 0;
            while j < room.devices.len()
                invariant
                    i < self.rooms.len(),
                    j <= room.devices.len(),
                    all_rooms == self@.rooms,
                    room == self.rooms@[i as int],
                    room_name == all_rooms[i as int].name,
                    room_devices_list == all_rooms[i as int].devices,
                    report@ == header + rooms_report(provider, all_rooms.take(i as int))
                        + devices_report(provider, room_name, room_devices_list.take(j as int)),
                decreases room.devices.len() - j,
            {
                let device = room.devices[j];
                let ghost report_before = report@;
                match RoomTypes::from_name(room.name.as_str()) {
                    None => {},
                    Some(kind) => {
                        match provider.get_device_status(&kind, &device) {
                            None => {},
                            Some(status) => {
                                push_report_line(
                                    &mut report,
                                    room.name.as_str(),
                                    &device,
                                    status.as_str(),
                                );
                            },
                        }
                    },
                }
                proof {
                    assert(room_devices_list.take(j + 1).drop_last() =~= room_devices_list.take(
                        j as int,
                    ));
                    assert(room_devices_list.take(j + 1).last() == room_devices_list[j as int]);
                    assert(report@ =~= report_before + device_line(provider, room_name, device));
                    assert(report@ =~= header + rooms_report(provider, all_rooms.take(i as int))
                        + devices_report(provider, room_name, room_devices_list.take(j + 1)));
                }
                j = j + 1;
            }
            proof {
                assert(room_devices_list.take(room_devices_list.len() as int)
                    =~= room_devices_list);
                assert(all_rooms.take(i + 1).drop_last() =~= all_rooms.take(i as int));
                assert(all_rooms.take(i + 1).last() == all_rooms[i as int]);
                assert(report@ =~= header + rooms_report(provider, all_rooms.take(i + 1)));
            }
            i = i + 1;
        }
        proof {
            assert(all_rooms.take(all_rooms.len() as int) =~= all_rooms);
        }
        report
    }

    /// The room names, in stored order.
    pub fn get_rooms(&self) -> (r: Vec<&str>)
        ensures
            r@.len() == self@.rooms.len(),
            forall|i: int| 0 <= i < r@.len() ==> r@[i]@ == self@.rooms[i].name,
    {
        let mut names: Vec<&str> = Vec::new();
        let mut i: usize = 0;
        while i < self.rooms.len()
            invariant
                i <= self.rooms.len(),
                names@.len() == i,
                forall|j: int| 0 <= j < i ==> names@[j]@ == self@.rooms[j].name,
            decreases self.rooms.len() - i,
        {
            names.push(self.rooms[i].name.as_str());
            i = i + 1;
        }
        names
    }
}

/// One line of a report: the room name, the device label and the status
/// the provider returned for the pair.
pub open spec fn report_line(room_name: Seq<char>, device: DeviceTypes, status: Seq<char>) -> Seq<
    char,
> {
    "Room: "@ + room_name + ", Device: "@ + device.label_spec() + ", "@ + status + "\n"@
}

/// What a (room, device) pair contributes to a report: a line when the
/// room name resolves to a recognized room kind and the provider answers
/// for the pair, nothing otherwise.
pub open spec fn device_line<P: DeviceInfoProvider>(
    provider: &P,
    room_name: Seq<char>,
    device: DeviceTypes,
) -> Seq<char> {
    match RoomTypes::of_name(room_name) {
        Some(kind) => match provider.status_spec(kind, device) {
            Some(status) => report_line(room_name, device, status),
            None => Seq::empty(),
        },
        None => Seq::empty(),
    }
}

/// What one room's device list contributes to a report, in stored order.
pub open spec fn devices_report<P: DeviceInfoProvider>(
    provider: &P,
    room_name: Seq<char>,
    devices: Seq<DeviceTypes>,
) -> Seq<char>
    decreases devices.len(),
{
    if devices.len() == 0 {
        Seq::empty()
    } else {
        devices_report(provider, room_name, devices.drop_last()) + device_line(
            provider,
            room_name,
            devices.last(),
        )
    }
}

/// What a room list contributes to a report, in stored order.
pub open spec fn rooms_report<P: DeviceInfoProvider>(provider: &P, rooms: Seq<RoomView>) -> Seq<
    char,
>
    decreases rooms.len(),
{
    if rooms.len() == 0 {
        Seq::empty()
    } else {
        rooms_report(provider, rooms.drop_last()) + devices_report(
            provider,
            rooms.last().name,
            rooms.last().devices,
        )
    }
}

/// The whole report: a header line with the house name, then one line per
/// (room, device) pair the provider answers for, in stored order.
pub open spec fn report_spec<P: DeviceInfoProvider>(provider: &P, house: HouseView) -> Seq<char> {
    "House: "@ + house.name + "\n"@ + rooms_report(provider, house.rooms)
}

/// Appends one report line to the report under construction.
fn push_report_line(report: &mut String, room_name: &str, device: &DeviceTypes, status: &str)
    ensures
        final(report)@ == old(report)@ + report_line(room_name@, *device, status@),
{
    report.append("Room: ");
    report.append(room_name);
    report.append(", Device: ");
    report.append(device.label());
    report.append(", ");
    report.append(status);
    report.append("\n");
    proof {
        assert(report@ =~= old(report)@ + report_line(room_name@, *device, status@));
    }
}

/// Exactly one position holds a room named `name`.
pub open spec fn exactly_one_room(rooms: Seq<RoomView>, name: Seq<char>) -> bool {
    &&& has_room(rooms, name)
    &&& forall|i: int, j: int|
        0 <= i < j < rooms.len() ==> !(rooms[i].name == name && rooms[j].name == name)
}

/// Adding a room twice is the same as adding it once, and on a house with
/// pairwise distinct room names it leaves exactly one room of that name.
pub proof fn lemma_add_room_idempotent(rooms: Seq<RoomView>, name: Seq<char>)
    ensures
        spec_add_room(spec_add_room(rooms, name), name) == spec_add_room(rooms, name),
        house_wf(rooms) ==> house_wf(spec_add_room(rooms, name)),
        has_room(spec_add_room(rooms, name), name),
        house_wf(rooms) ==> exactly_one_room(spec_add_room(rooms, name), name),
{
    let once = spec_add_room(rooms, name);
    if !has_room(rooms, name) {
        assert(once[rooms.len() as int].name == name);
    }
    assert(has_room(once, name));
}

/// Removing a room that does not exist leaves the room sequence unchanged.
pub proof fn lemma_remove_room_absent(rooms: Seq<RoomView>, name: Seq<char>)
    requires
        !has_room(rooms, name),
    ensures
        spec_remove_room(rooms, name) == rooms,
    decreases rooms.len(),
{
    reveal(Seq::filter);
    if rooms.len() > 0 {
        let prefix = rooms.drop_last();
        assert(!has_room(prefix, name)) by {
            if has_room(prefix, name) {
                let w = choose|i: int| 0 <= i < prefix.len() && prefix[i].name == name;
                assert(rooms[w] == prefix[w]);
            }
        }
        lemma_remove_room_absent(prefix, name);
        assert(rooms[rooms.len() - 1].name != name);
        assert(spec_remove_room(rooms, name) =~~= rooms);
    }
}

/// Filtering a device out of a list that never held it changes nothing.
pub proof fn lemma_remove_devices_absent(devices: Seq<DeviceTypes>, device: DeviceTypes)
    requires
        !devices.contains(device),
    ensures
        spec_remove_devices(devices, device) == devices,
    decreases devices.len(),
{
    reveal(Seq::filter);
    if devices.len() > 0 {
        let prefix = devices.drop_last();
        assert(!prefix.contains(device)) by {
            if prefix.contains(device) {
                let w = choose|i: int| 0 <= i < prefix.len() && prefix[i] == device;
                assert(devices[w] == prefix[w]);
            }
        }
        lemma_remove_devices_absent(prefix, device);
        assert(devices[devices.len() - 1] != device);
        assert(spec_remove_devices(devices, device) =~= devices);
    }
}

/// Adding a device to a room and removing it again restores the previous
/// rooms, provided the room did not already hold that device (with a
/// prior occurrence, `remove_device` would delete that one too).
pub proof fn lemma_add_then_remove_device(
    rooms: Seq<RoomView>,
    name: Seq<char>,
    device: DeviceTypes,
)
    requires
        forall|i: int| is_first_room(rooms, name, i) ==> !rooms[i].devices.contains(device),
    ensures
        spec_remove_device(spec_add_device(rooms, name, device), name, device) == rooms,
{
    if has_room(rooms, name) {
        lemma_first_room_exists(rooms, name);
        let i = first_room_index(rooms, name);
        let grown = spec_add_device(rooms, name, device);
        assert(is_first_room(grown, name, i));
        assert(has_room(grown, name));
        lemma_first_room_unique(grown, name, i, first_room_index(grown, name));
        let pushed = rooms[i].devices.push(device);
        assert(grown[i].devices == pushed);
        assert(pushed.drop_last() =~= rooms[i].devices);
        assert(!rooms[i].devices.contains(device));
        lemma_remove_devices_absent(rooms[i].devices, device);
        assert(spec_remove_devices(pushed, device) == rooms[i].devices) by {
            reveal(Seq::filter);
        }
        assert(spec_remove_device(grown, name, device) =~~= rooms);
    }
}

/// The two rooms every freshly constructed house starts with.
pub open spec fn seed_rooms() -> Seq<RoomView> {
    seq![
        RoomView {
            name: "Living"@,
            devices: seq![DeviceTypes::TV, DeviceTypes::Lamp, DeviceTypes::Thermo],
        },
        RoomView {
            name: "Kitchen"@,
            devices: seq![DeviceTypes::Lamp, DeviceTypes::Thermo, DeviceTypes::Fridge],
        },
    ]
}

} // verus!
